use pwm_to_scpi::fixed_format::format_fixed_2dp;
use pwm_to_scpi::messaging::PSUCommand;

#[test]
fn wire_text_of_each_command() {
    assert_eq!(PSUCommand::OutputOn.to_wire(), "OUT1");
    assert_eq!(PSUCommand::OutputOff.to_wire(), "OUT0");
    assert_eq!(PSUCommand::SetCurrent(200).to_wire(), "ISET1:2.00");
    assert_eq!(PSUCommand::SetVoltage(2000).to_wire(), "VSET1:20.00");
    assert_eq!(PSUCommand::SetCurrent(-5).to_wire(), "ISET1:-0.05");
}

#[test]
fn wire_text_of_extreme_values() {
    assert_eq!(PSUCommand::SetVoltage(i32::MIN).to_wire(), "VSET1:-21474836.48");
    assert_eq!(PSUCommand::SetCurrent(i32::MAX).to_wire(), "ISET1:21474836.47");
}

#[test]
fn fixed_format_pads_and_signs() {
    assert_eq!(format_fixed_2dp(0), "0.00");
    assert_eq!(format_fixed_2dp(5), "0.05");
    assert_eq!(format_fixed_2dp(50), "0.50");
    assert_eq!(format_fixed_2dp(123), "1.23");
    assert_eq!(format_fixed_2dp(-1), "-0.01");
    assert_eq!(format_fixed_2dp(-99), "-0.99");
    assert_eq!(format_fixed_2dp(-100), "-1.00");
    assert_eq!(format_fixed_2dp(100001), "1000.01");
}
