pub mod channels;
pub mod decoding;
pub mod denoise;
pub mod export_wav;
pub mod merging;
pub mod mp3;
pub mod normalize_export;
pub mod recorder;
pub mod wav_fields;
pub mod wav_layout;
pub mod waveform;
pub mod waveform_loader;
