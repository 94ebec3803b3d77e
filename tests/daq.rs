use odysseus_daemon::daq::{parse_daq_line, DaqParseError, DaqSample};

#[test]
fn daq_line_gives_channels() {
    let r = parse_daq_line("junk$0,100,200,300,400,500,600,700,800,900");
    assert_eq!(
        r,
        Ok(DaqSample { shock_1: 100, shock_2: 200, shock_3: 300, shock_7: 700, steering: 600 })
    );
}

#[test]
fn daq_line_uses_last_marker() {
    let r = parse_daq_line("1,2$x$9,8,7,6,5,4,3,2,1,0");
    assert_eq!(r, Ok(DaqSample { shock_1: 8, shock_2: 7, shock_3: 6, shock_7: 2, steering: 3 }));
}

#[test]
fn daq_line_under_count() {
    assert_eq!(parse_daq_line("1,2,3,4,5,6,7,8,9"), Err(DaqParseError::UnderCount));
    assert_eq!(parse_daq_line(""), Err(DaqParseError::UnderCount));
    assert_eq!(parse_daq_line("0,1,2,3,4,5,6,7,8,9$"), Err(DaqParseError::UnderCount));
}

#[test]
fn daq_line_refuses_bad_fields() {
    assert_eq!(parse_daq_line("0,x,1,2,3,4,5,6,7,8"), Err(DaqParseError::BadField));
    assert_eq!(parse_daq_line("0,1,2,3,4,5,6,7,8,x"), Err(DaqParseError::BadField));
    assert_eq!(parse_daq_line("0,1,2,,4,5,6,7,8,9"), Err(DaqParseError::BadField));
    assert_eq!(parse_daq_line("0,1,2,3,4,5,6,7,8,9\r"), Err(DaqParseError::BadField));
    // too few fields is reported first
    assert_eq!(parse_daq_line("0,x,2"), Err(DaqParseError::UnderCount));
}

#[test]
fn daq_fields_follow_integer_grammar() {
    let r = parse_daq_line("+0,+1,2,3,4,5,6,18446744073709551615,8,9");
    assert_eq!(
        r,
        Ok(DaqSample { shock_1: 1, shock_2: 2, shock_3: 3, shock_7: 18446744073709551615, steering: 6 })
    );
    assert_eq!(parse_daq_line("0,1,2,3,4,5,6,7,-8,9"), Err(DaqParseError::BadField));
    assert_eq!(
        parse_daq_line("0,1,2,3,4,5,6,18446744073709551616,8,9"),
        Err(DaqParseError::BadField)
    );
    assert_eq!(parse_daq_line("0,1,2,3,4,5,6,7, 8,9"), Err(DaqParseError::BadField));
}

#[test]
fn daq_line_with_more_fields() {
    let r = parse_daq_line("0,1,2,3,4,5,6,7,8,9,10,11");
    assert_eq!(r, Ok(DaqSample { shock_1: 1, shock_2: 2, shock_3: 3, shock_7: 7, steering: 6 }));
}
