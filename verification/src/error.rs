//! Error values of the library and the numeric codes of the C interface.

use vstd::prelude::*;

verus! {

/// The error codes that the C interface reports.
#[derive(Debug, Clone, Copy, PartialEq, Eq, Structural)]
pub enum ErrorCode {
    WorterbuchError,
    IoError,
    YamlError,
    TryInitError,
    TraceError,
    ParseError,
    ApiError,
    UnknownSampleFormat,
    InvalidSdp,
    InvalidIp,
    JsonSerdeError,
    SharedMemoryError,
    InvalidRtpData,
    RtpPacketBuildError,
    JackError,
    Other,
}

impl ErrorCode {
    pub open spec fn spec_code(self) -> u8 {
        match self {
            ErrorCode::WorterbuchError => 0x10,
            ErrorCode::IoError => 0x11,
            ErrorCode::YamlError => 0x12,
            ErrorCode::TryInitError => 0x13,
            ErrorCode::TraceError => 0x14,
            ErrorCode::ParseError => 0x15,
            ErrorCode::ApiError => 0x16,
            ErrorCode::UnknownSampleFormat => 0x17,
            ErrorCode::InvalidSdp => 0x18,
            ErrorCode::InvalidIp => 0x19,
            ErrorCode::JsonSerdeError => 0x1A,
            ErrorCode::SharedMemoryError => 0x1B,
            ErrorCode::InvalidRtpData => 0x1C,
            ErrorCode::RtpPacketBuildError => 0x1D,
            ErrorCode::JackError => 0x1E,
            ErrorCode::Other => 0x1F,
        }
    }

    /// The number that stands for this error on the C interface.
    pub fn code(&self) -> (r: u8)
        ensures
            r == self.spec_code(),
    {
        match self {
            ErrorCode::WorterbuchError => 0x10,
            ErrorCode::IoError => 0x11,
            ErrorCode::YamlError => 0x12,
            ErrorCode::TryInitError => 0x13,
            ErrorCode::TraceError => 0x14,
            ErrorCode::ParseError => 0x15,
            ErrorCode::ApiError => 0x16,
            ErrorCode::UnknownSampleFormat => 0x17,
            ErrorCode::InvalidSdp => 0x18,
            ErrorCode::InvalidIp => 0x19,
            ErrorCode::JsonSerdeError => 0x1A,
            ErrorCode::SharedMemoryError => 0x1B,
            ErrorCode::InvalidRtpData => 0x1C,
            ErrorCode::RtpPacketBuildError => 0x1D,
            ErrorCode::JackError => 0x1E,
            ErrorCode::Other => 0x1F,
        }
    }
}

/// An error in a child application: its name and what went wrong.
#[derive(Debug, Clone, PartialEq, Eq)]
pub struct ChildAppError(pub String, pub String);

/// Errors of a media clock. The errors of the operating system are held as their messages.
#[derive(Debug, Clone, PartialEq, Eq)]
pub enum ClockError {
    /// The clock could not be read.
    ClockError(String),
    IoError(String),
    /// The network interface has no PTP hardware clock.
    PtpNotSupported(String),
}

impl ClockError {
    /// A clock error with the given message.
    pub fn other(message: String) -> (r: ClockError)
        ensures
            r == ClockError::ClockError(message),
    {
        ClockError::ClockError(message)
    }
}

/// Errors in the configuration of senders, receivers and clocks.
#[derive(Debug, Clone, PartialEq, Eq)]
pub enum ConfigError {
    /// The session description cannot be used; the text says why.
    InvalidSdp(String),
    /// The local address does not fit the stream.
    InvalidLocalIP(String),
    /// The text is not an IP address.
    InvalidIp(String),
    /// The sample encoding is not supported.
    UnsupportedSampleFormat(String),
    /// No network interface has the given name or address.
    NoSuchNIC(String),
    MissingReceiverConfig,
    BackendMisconfigured(String),
}

/// The content of a [`ConfigError`], with its text as characters.
pub enum ConfigErrorView {
    InvalidSdp(Seq<char>),
    InvalidLocalIP(Seq<char>),
    InvalidIp(Seq<char>),
    UnsupportedSampleFormat(Seq<char>),
    NoSuchNIC(Seq<char>),
    MissingReceiverConfig,
    BackendMisconfigured(Seq<char>),
}

impl View for ConfigError {
    type V = ConfigErrorView;

    open spec fn view(&self) -> ConfigErrorView {
        match self {
            ConfigError::InvalidSdp(m) => ConfigErrorView::InvalidSdp(m@),
            ConfigError::InvalidLocalIP(m) => ConfigErrorView::InvalidLocalIP(m@),
            ConfigError::InvalidIp(m) => ConfigErrorView::InvalidIp(m@),
            ConfigError::UnsupportedSampleFormat(m) => ConfigErrorView::UnsupportedSampleFormat(m@),
            ConfigError::NoSuchNIC(m) => ConfigErrorView::NoSuchNIC(m@),
            ConfigError::MissingReceiverConfig => ConfigErrorView::MissingReceiverConfig,
            ConfigError::BackendMisconfigured(m) => ConfigErrorView::BackendMisconfigured(m@),
        }
    }
}

/// Moves a value onto the heap.
pub trait ToBoxed: Sized {
    fn boxed(self) -> (r: Box<Self>)
        ensures
            *r == self,
    ;
}

impl ToBoxed for ConfigError {
    fn boxed(self) -> (r: Box<Self>) {
        Box::new(self)
    }
}

impl ToBoxed for ChildAppError {
    fn boxed(self) -> (r: Box<Self>) {
        Box::new(self)
    }
}

/// Moves the error of a result onto the heap.
pub trait ToBoxedResult<T, E>: Sized {
    fn boxed(self) -> (r: Result<T, Box<E>>);
}

impl<T, E> ToBoxedResult<T, E> for Result<T, E> {
    fn boxed(self) -> (r: Result<T, Box<E>>)
        ensures
            match self {
                Ok(v) => r == Ok::<T, Box<E>>(v),
                Err(e) => r matches Err(b) && *b == e,
            },
    {
        match self {
            Ok(it) => Ok(it),
            Err(err) => Err(Box::new(err)),
        }
    }
}

/// Errors that report a numeric code.
pub trait GetErrorCode {
    fn error_code(&self) -> u8;
}

} // verus!
