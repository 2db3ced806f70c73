use ntp_sync::ntp::NTPTimestamp;
use ntp_sync::ntp::NTPHeader;
use ntp_sync::ntp::parse_server_reply;
use ntp_sync::error::Error;

#[test]
fn epoch_conversion_zero_fraction() {
    for x in [0i64, 1, 5, 1_000_000, 86_400] {
        let ts = NTPTimestamp { seconds: (2_208_988_800 + x) as u32, fraction: 0 };
        let t = ts.as_timespec();
        assert_eq!(t.sec, x);
        assert_eq!(t.nsec, 0);
    }
}

#[test]
fn seconds_before_unix_epoch_go_negative() {
    let ts = NTPTimestamp { seconds: 2_208_988_799, fraction: 0 };
    let t = ts.as_timespec();
    assert_eq!(t.sec, -1);
}

#[test]
fn fraction_half_second() {
    let ts = NTPTimestamp { seconds: 2_208_988_800, fraction: 0x8000_0000 };
    let t = ts.as_timespec();
    assert_eq!(t.sec, 0);
    assert_eq!(t.nsec, 500_000_000);
}

#[test]
fn fraction_extremes() {
    let low = NTPTimestamp { seconds: 2_208_988_800, fraction: 0 };
    assert_eq!(low.as_timespec().nsec, 0);
    let high = NTPTimestamp { seconds: 2_208_988_800, fraction: u32::MAX };
    let nsec = high.as_timespec().nsec;
    assert!(nsec < 1_000_000_000);
    assert_eq!(nsec, 999_999_999);
}

#[test]
fn fraction_monotonic_samples() {
    let fractions = [0u32, 1, 0x100, 0xffff, 0x8000_0000, 0xffff_fffe, 0xffff_ffff];
    let mut prev: u32 = 0;
    for f in fractions {
        let ts = NTPTimestamp { seconds: 2_300_000_000, fraction: f };
        let nsec = ts.as_timespec().nsec;
        assert!(nsec >= prev);
        prev = nsec;
    }
}

#[test]
fn subsec_micros_truncates_nanos() {
    let ts = NTPTimestamp { seconds: 2_208_988_800, fraction: 0x8000_0000 };
    let t = ts.as_timespec();
    assert_eq!(t.subsec_micros(), 500_000);
}

#[test]
fn parse_reply_reads_transmit_timestamp() {
    let mut h = NTPHeader::new();
    h.transmit_timestamp = NTPTimestamp { seconds: 2_208_988_810, fraction: 0x8000_0000 };
    let bytes = h.encode().unwrap();
    let t = parse_server_reply(bytes.len(), &bytes).unwrap();
    assert_eq!(t.sec, 10);
    assert_eq!(t.nsec, 500_000_000);
}

#[test]
fn parse_reply_short_buffer_fails() {
    let buf = [0u8; 30];
    match parse_server_reply(30, &buf) {
        Err(Error::UnexpectedSize(expected, actual)) => {
            assert_eq!(expected, 48);
            assert_eq!(actual, 30);
        }
        Ok(_) => panic!("parse accepted a short buffer"),
    }
}
