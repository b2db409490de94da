//! The errors of the workstation.
use vstd::prelude::*;
use vstd::string::StringExecFns;

verus! {

/// An error of the operating system's input and output.
#[verifier::external_type_specification]
#[verifier::external_body]
pub struct ExIoError(std::io::Error);

/// The decimal digits of `n`, the most significant first.
pub open spec fn decimal_digits(n: nat) -> Seq<char>
    decreases n,
{
    if n < 10 {
        seq![(48 + n) as char]
    } else {
        decimal_digits(n / 10).push((48 + n % 10) as char)
    }
}

/// The numeral of one digit.
fn digit_str(digit: u64) -> (r: &'static str)
    requires
        digit < 10,
    ensures
        r@ == seq![(48 + digit) as char],
{
    proof {
        reveal_strlit("0");
        reveal_strlit("1");
        reveal_strlit("2");
        reveal_strlit("3");
        reveal_strlit("4");
        reveal_strlit("5");
        reveal_strlit("6");
        reveal_strlit("7");
        reveal_strlit("8");
        reveal_strlit("9");
    }
    let r: &'static str = if digit == 0 {
        "0"
    } else if digit == 1 {
        "1"
    } else if digit == 2 {
        "2"
    } else if digit == 3 {
        "3"
    } else if digit == 4 {
        "4"
    } else if digit == 5 {
        "5"
    } else if digit == 6 {
        "6"
    } else if digit == 7 {
        "7"
    } else if digit == 8 {
        "8"
    } else {
        "9"
    };
    assert(r@ =~= seq![(48 + digit) as char]);
    r
}

/// The decimal numeral of `n`.
pub(crate) fn decimal_string(n: u64) -> (r: String)
    ensures
        r@ == decimal_digits(n as nat),
    decreases n,
{
    if n < 10 {
        String::from_str(digit_str(n))
    } else {
        let r = decimal_string(n / 10).concat(digit_str(n % 10));
        assert(r@ =~= decimal_digits((n / 10) as nat).push((48 + n % 10) as char));
        r
    }
}

/// `std::io::Error::to_string` describes the error in words that depend on
/// the operating system.
#[verifier::external_body]
pub(crate) fn io_error_string(error: &std::io::Error) -> (r: String) {
    error.to_string()
}

/// What went wrong.
#[derive(Debug)]
pub enum KotoError {
    /// The audio device could not be had.
    AudioDevice(String),
    /// The audio stream failed.
    AudioStream(String),
    /// The MIDI device could not be had.
    MidiDevice(String),
    /// Reading or writing a file failed.
    FileIo(std::io::Error),
    /// A sample rate that cannot be used.
    InvalidSampleRate(u32),
    /// A period length that cannot be used.
    InvalidBufferSize(usize),
    /// A plugin failed.
    Plugin(String),
    /// The project is broken.
    Project(String),
}

/// The result of an operation that can fail.
pub type KotoResult<T> = Result<T, KotoError>;

impl KotoError {
    /// What precedes the detail in the error's message.
    pub open spec fn heading(&self) -> Seq<char> {
        match self {
            KotoError::AudioDevice(_) => "Audio device error: "@,
            KotoError::AudioStream(_) => "Audio stream error: "@,
            KotoError::MidiDevice(_) => "MIDI device error: "@,
            KotoError::FileIo(_) => "File I/O error: "@,
            KotoError::InvalidSampleRate(_) => "Invalid sample rate: "@,
            KotoError::InvalidBufferSize(_) => "Invalid buffer size: "@,
            KotoError::Plugin(_) => "Plugin error: "@,
            KotoError::Project(_) => "Project error: "@,
        }
    }

    /// The error in words: a heading, then the detail. The detail of a file
    /// error is the operating system's and is not stated here.
    pub fn message(&self) -> (r: String)
        ensures
            r@.len() >= self.heading().len(),
            r@.take(self.heading().len() as int) == self.heading(),
            match self {
                KotoError::AudioDevice(detail) => r@ == self.heading() + detail@,
                KotoError::AudioStream(detail) => r@ == self.heading() + detail@,
                KotoError::MidiDevice(detail) => r@ == self.heading() + detail@,
                KotoError::FileIo(_) => true,
                KotoError::InvalidSampleRate(rate) => r@ == self.heading() + decimal_digits(*rate as nat),
                KotoError::InvalidBufferSize(size) => r@ == self.heading() + decimal_digits(*size as nat),
                KotoError::Plugin(detail) => r@ == self.heading() + detail@,
                KotoError::Project(detail) => r@ == self.heading() + detail@,
            },
    {
        let r = match self {
            KotoError::AudioDevice(detail) => String::from_str("Audio device error: ").concat(detail.as_str()),
            KotoError::AudioStream(detail) => String::from_str("Audio stream error: ").concat(detail.as_str()),
            KotoError::MidiDevice(detail) => String::from_str("MIDI device error: ").concat(detail.as_str()),
            KotoError::FileIo(error) => {
                let detail = io_error_string(error);
                String::from_str("File I/O error: ").concat(detail.as_str())
            },
            KotoError::InvalidSampleRate(rate) => {
                let detail = decimal_string(*rate as u64);
                String::from_str("Invalid sample rate: ").concat(detail.as_str())
            },
            KotoError::InvalidBufferSize(size) => {
                let detail = decimal_string(*size as u64);
                String::from_str("Invalid buffer size: ").concat(detail.as_str())
            },
            KotoError::Plugin(detail) => String::from_str("Plugin error: ").concat(detail.as_str()),
            KotoError::Project(detail) => String::from_str("Project error: ").concat(detail.as_str()),
        };
        assert(r@.take(self.heading().len() as int) =~= self.heading());
        r
    }
}

impl From<std::io::Error> for KotoError {
    fn from(error: std::io::Error) -> (r: KotoError) {
        KotoError::FileIo(error)
    }
}

impl vstd::std_specs::convert::FromSpecImpl<std::io::Error> for KotoError {
    open spec fn obeys_from_spec() -> bool {
        true
    }

    open spec fn from_spec(error: std::io::Error) -> KotoError {
        KotoError::FileIo(error)
    }
}

} // verus!
