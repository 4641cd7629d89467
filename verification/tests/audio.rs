use notype_mini::{recording_outcome, samples_to_wav, RecorderHandle};

#[test]
fn test_samples_to_wav_produces_valid_wav() {
    let samples: Vec<i16> = (0..1000).map(|i| (i as i16).wrapping_mul(10)).collect();
    let wav = samples_to_wav(&samples, 16000).expect("编码 WAV 失败");

    assert!(wav.len() > 44, "WAV 数据太短");
    assert_eq!(&wav[0..4], b"RIFF");
    assert_eq!(&wav[8..12], b"WAVE");
}

#[test]
fn test_samples_to_wav_empty_samples() {
    let wav = samples_to_wav(&[], 16000).expect("空样本编码失败");
    assert_eq!(&wav[0..4], b"RIFF");
    assert_eq!(&wav[8..12], b"WAVE");
}

#[test]
fn wav_layout_is_exact() {
    let wav = samples_to_wav(&[1, -2], 8000).unwrap();
    let expected: Vec<u8> = vec![
        b'R', b'I', b'F', b'F', 40, 0, 0, 0, b'W', b'A', b'V', b'E', b'f', b'm', b't', b' ', 16, 0, 0, 0, 1, 0, 1,
        0, 0x40, 0x1f, 0, 0, 0x80, 0x3e, 0, 0, 2, 0, 16, 0, b'd', b'a', b't', b'a', 4, 0, 0, 0, 1, 0, 0xfe, 0xff,
    ];
    assert_eq!(wav, expected);
}

#[test]
fn stop_returns_what_the_thread_sends() {
    let (stop_tx, stop_rx) = std::sync::mpsc::channel::<()>();
    let (result_tx, result_rx) = std::sync::mpsc::channel();
    result_tx.send(Ok((vec![1i16, 2, 3], 16000u32))).unwrap();
    let handle = RecorderHandle::new(stop_tx, result_rx);
    assert_eq!(handle.stop(), Ok((vec![1, 2, 3], 16000)));
    assert!(stop_rx.try_recv().is_ok());
}

#[test]
fn stop_reports_a_lost_thread() {
    let (stop_tx, _stop_rx) = std::sync::mpsc::channel::<()>();
    let (result_tx, result_rx) = std::sync::mpsc::channel::<Result<(Vec<i16>, u32), String>>();
    drop(result_tx);
    let handle = RecorderHandle::new(stop_tx, result_rx);
    assert_eq!(handle.stop(), Err("录音线程异常退出".to_string()));
    assert_eq!(recording_outcome(None), Err("录音线程异常退出".to_string()));
}
