use std::str::FromStr;

use feiq_v2::error::{AppError, NetworkError, ProtocolError};
use feiq_v2::types::{format_file_size, TransferStatus};

#[test]
fn test_format_file_size() {
    assert_eq!(format_file_size(512), "0.5 KB");
    assert_eq!(format_file_size(1024), "1.0 KB");
    assert_eq!(format_file_size(1024 * 1024 + 1), "1.0 MB");
}

fn float_reference(bytes: u64) -> String {
    if bytes > 1024 * 1024 {
        format!("{:.1} MB", bytes as f64 / (1024.0 * 1024.0))
    } else {
        format!("{:.1} KB", bytes as f64 / 1024.0)
    }
}

#[test]
fn file_size_matches_float_formatting() {
    let mut samples: Vec<u64> = vec![
        0, 1, 51, 52, 256, 768, 1023, 1024, 1536, 1024 * 1024, 1024 * 1024 + 1,
        5 * 1024 * 1024 + 52428, 5 * 1024 * 1024 + 52429, 3 * 1024 * 1024 / 20,
        (1u64 << 53) - 1, 1u64 << 53, (1u64 << 53) + 1, (1u64 << 53) + 3,
        u64::MAX, u64::MAX - 1024, 1u64 << 63, (1u64 << 63) + (1u64 << 10),
    ];
    for i in 0..3000u64 {
        samples.push(i * 37);
        samples.push(1024 * 1024 + i * 104857);
        samples.push(i.wrapping_mul(0x9E37_79B9_7F4A_7C15));
    }
    for b in samples {
        assert_eq!(format_file_size(b), float_reference(b), "bytes = {}", b);
    }
}

#[test]
fn transfer_status_names_roundtrip() {
    for s in [
        TransferStatus::Pending,
        TransferStatus::Transferring,
        TransferStatus::Completed,
        TransferStatus::Failed,
    ] {
        assert_eq!(TransferStatus::from_str(&s.to_string()), Ok(s));
    }
    assert_eq!(TransferStatus::Completed.as_str(), "completed");
    assert_eq!(
        TransferStatus::from_str("done"),
        Err("Unknown TransferStatus: done".to_string())
    );
}

#[test]
fn error_texts() {
    let err: AppError = NetworkError::SendTimeout.into();
    assert!(matches!(err, AppError::Network(NetworkError::SendTimeout)));
    assert_eq!(err.message(), "network error: send timeout");
    let err2: AppError = NetworkError::BindFailed("port busy".to_string()).into();
    match &err2 {
        AppError::Network(NetworkError::BindFailed(msg)) => assert_eq!(msg, "port busy"),
        _ => panic!("expected a bind failure"),
    }
    assert_eq!(AppError::Other("test error".to_string()).message(), "test error");
    assert_eq!(
        ProtocolError::TooFewFields(3).message(),
        "packet has too few fields (expected at least 5, got 3)"
    );
    let from_str: AppError = "plain".into();
    assert_eq!(from_str.message(), "plain");
}
