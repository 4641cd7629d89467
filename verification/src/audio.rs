//! Audio capture hand-off and WAV encoding of recorded samples.

use std::sync::mpsc::{Receiver, Sender};
use vstd::prelude::*;

use crate::text::owned;

verus! {

#[verifier::external_type_specification]
#[verifier::external_body]
#[verifier::reject_recursive_types(T)]
pub struct ExSender<T>(Sender<T>);

#[verifier::external_type_specification]
#[verifier::external_body]
#[verifier::reject_recursive_types(T)]
pub struct ExReceiver<T>(Receiver<T>);

#[verifier::external_type_specification]
#[verifier::external_body]
pub struct ExHoundError(hound::Error);

/// What the recording thread hands back: the samples and their rate, or an error text.
pub type Recording = Result<(Vec<i16>, u32), String>;

/// The two ends that connect the app to a running recording thread.
pub struct RecorderHandle {
    stop_tx: Sender<()>,
    result_rx: Receiver<Recording>,
}

/// Calls std `Sender::send`; a disconnected thread is ignored, so nothing is stated.
#[verifier::external_body]
fn send_stop(tx: &Sender<()>) {
    let _ = tx.send(());
}

/// Calls std `Receiver::recv`: the recording thread's answer, or `None` when
/// the thread is gone. What it answers depends on that thread, so nothing is stated.
#[verifier::external_body]
fn receive(rx: &Receiver<Recording>) -> Option<Recording> {
    rx.recv().ok()
}

/// The message when the recording thread ended without answering.
pub open spec fn lost_thread_message() -> Seq<char> {
    "录音线程异常退出"@
}

/// The outcome of a stop request given what the thread answered: its answer,
/// or an error when it ended without one.
pub fn recording_outcome(answer: Option<Recording>) -> (r: Recording)
    ensures
        match answer {
            Some(a) => r == a,
            None => r matches Err(m) && m@ == lost_thread_message(),
        },
{
    match answer {
        Some(a) => a,
        None => Err(owned("录音线程异常退出")),
    }
}

impl RecorderHandle {
    /// The channel on which the stop request is sent.
    pub closed spec fn stop_channel(self) -> Sender<()> {
        self.stop_tx
    }

    /// The channel on which the recording thread answers.
    pub closed spec fn result_channel(self) -> Receiver<Recording> {
        self.result_rx
    }

    /// Connects to a recording thread through its stop and result channels.
    pub fn new(stop_tx: Sender<()>, result_rx: Receiver<Recording>) -> (r: RecorderHandle)
        ensures
            r.stop_channel() == stop_tx,
            r.result_channel() == result_rx,
    {
        RecorderHandle { stop_tx, result_rx }
    }

    /// Asks the recording thread to stop and waits for its samples. The result
    /// is the thread's answer, or the lost-thread error when it ended without
    /// one (`recording_outcome`); what the thread answers is up to the thread.
    pub fn stop(self) -> (r: Recording) {
        send_stop(&self.stop_tx);
        let answer = receive(&self.result_rx);
        recording_outcome(answer)
    }
}

/// Little-endian bytes of a 16-bit value.
pub open spec fn le16(v: int) -> Seq<u8> {
    seq![(v % 256) as u8, ((v / 256) % 256) as u8]
}

/// Little-endian bytes of a 32-bit value.
pub open spec fn le32(v: int) -> Seq<u8> {
    le16(v % 65536) + le16(v / 65536)
}

/// The samples as 16-bit little-endian two's complement.
pub open spec fn sample_bytes(s: Seq<i16>) -> Seq<u8>
    decreases s.len(),
{
    if s.len() == 0 {
        seq![]
    } else {
        let v = s[0] as int;
        le16(if v < 0 { v + 65536 } else { v }) + sample_bytes(s.drop_first())
    }
}

/// A mono 16-bit PCM WAV file: RIFF header, 16-byte PCM fmt chunk, data chunk.
pub open spec fn wav_mono16(samples: Seq<i16>, sample_rate: u32) -> Seq<u8> {
    let data_len: int = 2 * (samples.len() as int);
    seq![0x52u8, 0x49, 0x46, 0x46] + le32(36 + data_len) + seq![0x57u8, 0x41, 0x56, 0x45]
        + seq![0x66u8, 0x6d, 0x74, 0x20] + le32(16) + le16(1) + le16(1) + le32(sample_rate as int)
        + le32(2 * sample_rate) + le16(2) + le16(16) + seq![0x64u8, 0x61, 0x74, 0x61] + le32(data_len)
        + sample_bytes(samples)
}

/// The sizes written into the header fit hound's 32-bit counters, and the rate
/// is usable (hound divides by it and multiplies it by two).
pub open spec fn wav_encodable(n: int, sample_rate: u32) -> bool {
    &&& 0 < sample_rate
    &&& 2 * sample_rate <= u32::MAX
    &&& 36 + 2 * n <= u32::MAX
}

/// Encodes mono 16-bit samples with `hound::WavWriter` into memory: hound
/// writes the PCMWAVEFORMAT header (RIFF size, fmt size 16, format 1, one
/// channel, rate, byte rate, block align 2, 16 bits, data size) and then each
/// sample little-endian; writing to a `Vec` does not fail.
#[verifier::external_body]
fn encode_wav_mono16(samples: &[i16], sample_rate: u32) -> (r: Result<Vec<u8>, hound::Error>)
    requires
        wav_encodable(samples@.len() as int, sample_rate),
    ensures
        r is Ok,
        r matches Ok(b) ==> b@ == wav_mono16(samples@, sample_rate),
{
    let mut buffer = Vec::new();
    let spec = hound::WavSpec { channels: 1, sample_rate, bits_per_sample: 16, sample_format: hound::SampleFormat::Int };
    let mut writer = hound::WavWriter::new(std::io::Cursor::new(&mut buffer), spec)?;
    for &sample in samples {
        writer.write_sample(sample)?;
    }
    writer.finalize()?;
    Ok(buffer)
}

/// Calls `hound::Error`'s `Display`; the text is not stated.
#[verifier::external_body]
fn wav_error_text(e: &hound::Error) -> String {
    format!("{}", e)
}

/// The recorded samples as a mono 16-bit WAV file.
pub fn samples_to_wav(samples: &[i16], sample_rate: u32) -> (r: Result<Vec<u8>, String>)
    requires
        wav_encodable(samples@.len() as int, sample_rate),
    ensures
        r matches Ok(b) && b@ == wav_mono16(samples@, sample_rate),
{
    match encode_wav_mono16(samples, sample_rate) {
        Ok(b) => Ok(b),
        Err(e) => Err(wav_error_text(&e)),
    }
}

} // verus!
