//! Errors: what the server reports, and what can go wrong on the way.

use vstd::prelude::*;
use crate::text::{decimal_of, decimal_spec};

verus! {

/// The description of the server error code `id`, for the codes that have
/// one. The table is fixed; a code without an entry is still a valid code.
pub open spec fn error_description(id: usize) -> Option<Seq<char>> {
    match id {
        0 => Some("unknown error code"@),
        1 => Some("undefined error"@),
        2 => Some("not implemented"@),
        5 => Some("library time limit reached"@),
        256 => Some("command not found"@),
        257 => Some("unable to bind network port"@),
        258 => Some("no network port available"@),
        512 => Some("invalid clientID"@),
        513 => Some("nickname is already in use"@),
        514 => Some("invalid error code"@),
        515 => Some("max clients protocol limit reached"@),
        516 => Some("invalid client type"@),
        517 => Some("already subscribed"@),
        518 => Some("not logged in"@),
        519 => Some("could not validate client identity"@),
        520 => Some("invalid loginname or password"@),
        521 => Some("too many clones already connected"@),
        522 => Some("client version outdated, please update"@),
        523 => Some("client is online"@),
        524 => Some("client is flooding"@),
        525 => Some("client is modified"@),
        526 => Some("can not verify client at this moment"@),
        527 => Some("client is not permitted to log in"@),
        528 => Some("client is not subscribed to the channel"@),
        768 => Some("invalid channelID"@),
        769 => Some("max channels protocol limit reached"@),
        770 => Some("already member of channel"@),
        771 => Some("channel name is already in use"@),
        772 => Some("channel not empty"@),
        773 => Some("can not delete default channel"@),
        774 => Some("default channel requires permanent"@),
        775 => Some("invalid channel flags"@),
        776 => Some("permanent channel can not be child of non permanent channel"@),
        777 => Some("channel maxclient reached"@),
        778 => Some("channel maxfamily reached"@),
        779 => Some("invalid channel order"@),
        780 => Some("channel does not support filetransfers"@),
        781 => Some("invalid channel password"@),
        782 => Some("channel is private channel"@),
        783 => Some("invalid security hash supplied by client"@),
        1024 => Some("invalid serverID"@),
        1025 => Some("server is running"@),
        1026 => Some("server is shutting down"@),
        1027 => Some("server maxclient reached"@),
        1028 => Some("invalid server password"@),
        1029 => Some("deployment active"@),
        1030 => Some("unable to stop own server in your connection class"@),
        1031 => Some("server is virtual"@),
        1032 => Some("server wrong machineID"@),
        1033 => Some("server is not running"@),
        1034 => Some("server is booting up"@),
        1035 => Some("server got an invalid status for this operation"@),
        1036 => Some("server modal quit"@),
        1037 => Some("server version is too old for command"@),
        1040 => Some("server blacklisted"@),
        1280 => Some("database error"@),
        1281 => Some("database empty result set"@),
        1282 => Some("database duplicate entry"@),
        1283 => Some("database no modifications"@),
        1284 => Some("database invalid constraint"@),
        1285 => Some("database reinvoke command"@),
        1536 => Some("invalid quote"@),
        1537 => Some("invalid parameter count"@),
        1538 => Some("invalid parameter"@),
        1539 => Some("parameter not found"@),
        1540 => Some("convert error"@),
        1541 => Some("invalid parameter size"@),
        1542 => Some("missing required parameter"@),
        1543 => Some("invalid checksum"@),
        1792 => Some("virtual server got a critical error"@),
        1793 => Some("Connection lost"@),
        1794 => Some("not connected"@),
        1795 => Some("no cached connection info"@),
        1796 => Some("currently not possible"@),
        1797 => Some("failed connection initialization"@),
        1798 => Some("could not resolve hostname"@),
        1799 => Some("invalid server connection handler ID"@),
        1800 => Some("could not initialize Input Manager"@),
        1801 => Some("client library not initialized"@),
        1802 => Some("server library not initialized"@),
        1803 => Some("too many whisper targets"@),
        1804 => Some("no whisper targets found"@),
        2048 => Some("invalid file name"@),
        2049 => Some("invalid file permissions"@),
        2050 => Some("file already exists"@),
        2051 => Some("file not found"@),
        2052 => Some("file input/output error"@),
        2053 => Some("invalid file transfer ID"@),
        2054 => Some("invalid file path"@),
        2055 => Some("no files available"@),
        2056 => Some("overwrite excludes resume"@),
        2057 => Some("invalid file size"@),
        2058 => Some("file already in use"@),
        2059 => Some("could not open file transfer connection"@),
        2060 => Some("no space left on device (disk full?)"@),
        2061 => Some("file exceeds file system's maximum file size"@),
        2062 => Some("file transfer connection timeout"@),
        2063 => Some("lost file transfer connection"@),
        2064 => Some("file exceeds supplied file size"@),
        2065 => Some("file transfer complete"@),
        2066 => Some("file transfer canceled"@),
        2067 => Some("file transfer interrupted"@),
        2068 => Some("file transfer server quota exceeded"@),
        2069 => Some("file transfer client quota exceeded"@),
        2070 => Some("file transfer reset"@),
        2071 => Some("file transfer limit reached"@),
        2304 => Some("preprocessor disabled"@),
        2305 => Some("internal preprocessor"@),
        2306 => Some("internal encoder"@),
        2307 => Some("internal playback"@),
        2308 => Some("no capture device available"@),
        2309 => Some("no playback device available"@),
        2310 => Some("could not open capture device"@),
        2311 => Some("could not open playback device"@),
        2312 => Some("ServerConnectionHandler has a device registered"@),
        2313 => Some("invalid capture device"@),
        2314 => Some("invalid clayback device"@),
        2315 => Some("invalid wave file"@),
        2316 => Some("wave file type not supported"@),
        2317 => Some("could not open wave file"@),
        2318 => Some("internal capture"@),
        2319 => Some("device still in use"@),
        2320 => Some("device already registerred"@),
        2321 => Some("device not registered/known"@),
        2322 => Some("unsupported frequency"@),
        2323 => Some("invalid channel count"@),
        2324 => Some("read error in wave"@),
        2325 => Some("sound need more data"@),
        2326 => Some("sound device was busy"@),
        2327 => Some("there is no sound data for this period"@),
        2328 => Some("Channelmask set bits count (speakers) is not the same as channel (count)"@),
        2560 => Some("invalid group ID"@),
        2561 => Some("duplicate entry"@),
        2562 => Some("invalid permission ID"@),
        2563 => Some("empty result set"@),
        2564 => Some("access to default group is forbidden"@),
        2565 => Some("invalid size"@),
        2566 => Some("invalid value"@),
        2567 => Some("group is not empty"@),
        2568 => Some("insufficient client permissions"@),
        2569 => Some("insufficient group modify power"@),
        2570 => Some("insufficient permission modify power"@),
        2571 => Some("template group is currently used"@),
        2572 => Some("permission error"@),
        2816 => Some("virtualserver limit reached"@),
        2817 => Some("max slot limit reached"@),
        2818 => Some("license file not found"@),
        2819 => Some("license date not ok"@),
        2820 => Some("unable to connect to accounting server"@),
        2821 => Some("unknown accounting error"@),
        2822 => Some("accounting server error"@),
        2823 => Some("instance limit reached"@),
        2824 => Some("instance check error"@),
        2825 => Some("license file invalid"@),
        2826 => Some("virtualserver is running elsewhere"@),
        2827 => Some("virtualserver running in same instance already"@),
        2828 => Some("virtualserver already started"@),
        2829 => Some("virtualserver not started"@),
        3072 => Some("invalid message id"@),
        3328 => Some("invalid ban id"@),
        3329 => Some("connection failed, you are banned"@),
        3330 => Some("rename failed, new name is banned"@),
        3331 => Some("flood ban"@),
        3584 => Some("unable to initialize tts"@),
        3840 => Some("invalid privilege key"@),
        4352 => Some("invalid password"@),
        4353 => Some("invalid request"@),
        4354 => Some("no (more) slots available"@),
        4355 => Some("pool missing"@),
        4356 => Some("pool unknown"@),
        4357 => Some("unknown ip location (perhaps LAN ip?)"@),
        4358 => Some("internal error (tried exceeded)"@),
        4359 => Some("too many slots requested"@),
        4360 => Some("too many reserved"@),
        4361 => Some("could not connect to provisioning server"@),
        4368 => Some("authentication server not connected"@),
        4369 => Some("authentication data too large"@),
        4370 => Some("already initialized"@),
        4371 => Some("not initialized"@),
        4372 => Some("already connecting"@),
        4373 => Some("already connected"@),
        4375 => Some("io_error"@),
        _ => None,
    }
}

/// What the server answered when it refused a command.
#[derive(Debug)]
pub struct ErrorResponse {
    /// Error code; never 0 in a response decoded from a status line.
    pub id: usize,
    /// Error message, unescaped.
    pub msg: String,
}

/// The view of an `ErrorResponse`.
pub struct ErrorResponseView {
    pub id: usize,
    pub msg: Seq<char>,
}

impl View for ErrorResponse {
    type V = ErrorResponseView;

    open spec fn view(&self) -> ErrorResponseView {
        ErrorResponseView { id: self.id, msg: self.msg@ }
    }
}

/// The text that `ErrorResponse::to_text` gives for code `id` and message
/// `msg`.
pub open spec fn error_text(id: usize, msg: Seq<char>) -> Seq<char> {
    match error_description(id) {
        Some(d) => "Error "@ + decimal_spec(id as nat) + ": "@ + d + ", msg: "@ + msg + "\n"@,
        None => "Unknown Error code "@ + decimal_spec(id as nat) + ", msg: "@ + msg + "\n"@,
    }
}

impl ErrorResponse {
    /// The description of this error's code, if the code is a known one.
    pub fn error_name(&self) -> (r: Option<&'static str>)
        ensures
            match r {
                Some(s) => error_description(self.id) == Some(s@),
                None => error_description(self.id) is None,
            },
    {
        match self.id {
            0 => Some("unknown error code"),
            1 => Some("undefined error"),
            2 => Some("not implemented"),
            5 => Some("library time limit reached"),
            256 => Some("command not found"),
            257 => Some("unable to bind network port"),
            258 => Some("no network port available"),
            512 => Some("invalid clientID"),
            513 => Some("nickname is already in use"),
            514 => Some("invalid error code"),
            515 => Some("max clients protocol limit reached"),
            516 => Some("invalid client type"),
            517 => Some("already subscribed"),
            518 => Some("not logged in"),
            519 => Some("could not validate client identity"),
            520 => Some("invalid loginname or password"),
            521 => Some("too many clones already connected"),
            522 => Some("client version outdated, please update"),
            523 => Some("client is online"),
            524 => Some("client is flooding"),
            525 => Some("client is modified"),
            526 => Some("can not verify client at this moment"),
            527 => Some("client is not permitted to log in"),
            528 => Some("client is not subscribed to the channel"),
            768 => Some("invalid channelID"),
            769 => Some("max channels protocol limit reached"),
            770 => Some("already member of channel"),
            771 => Some("channel name is already in use"),
            772 => Some("channel not empty"),
            773 => Some("can not delete default channel"),
            774 => Some("default channel requires permanent"),
            775 => Some("invalid channel flags"),
            776 => Some("permanent channel can not be child of non permanent channel"),
            777 => Some("channel maxclient reached"),
            778 => Some("channel maxfamily reached"),
            779 => Some("invalid channel order"),
            780 => Some("channel does not support filetransfers"),
            781 => Some("invalid channel password"),
            782 => Some("channel is private channel"),
            783 => Some("invalid security hash supplied by client"),
            1024 => Some("invalid serverID"),
            1025 => Some("server is running"),
            1026 => Some("server is shutting down"),
            1027 => Some("server maxclient reached"),
            1028 => Some("invalid server password"),
            1029 => Some("deployment active"),
            1030 => Some("unable to stop own server in your connection class"),
            1031 => Some("server is virtual"),
            1032 => Some("server wrong machineID"),
            1033 => Some("server is not running"),
            1034 => Some("server is booting up"),
            1035 => Some("server got an invalid status for this operation"),
            1036 => Some("server modal quit"),
            1037 => Some("server version is too old for command"),
            1040 => Some("server blacklisted"),
            1280 => Some("database error"),
            1281 => Some("database empty result set"),
            1282 => Some("database duplicate entry"),
            1283 => Some("database no modifications"),
            1284 => Some("database invalid constraint"),
            1285 => Some("database reinvoke command"),
            1536 => Some("invalid quote"),
            1537 => Some("invalid parameter count"),
            1538 => Some("invalid parameter"),
            1539 => Some("parameter not found"),
            1540 => Some("convert error"),
            1541 => Some("invalid parameter size"),
            1542 => Some("missing required parameter"),
            1543 => Some("invalid checksum"),
            1792 => Some("virtual server got a critical error"),
            1793 => Some("Connection lost"),
            1794 => Some("not connected"),
            1795 => Some("no cached connection info"),
            1796 => Some("currently not possible"),
            1797 => Some("failed connection initialization"),
            1798 => Some("could not resolve hostname"),
            1799 => Some("invalid server connection handler ID"),
            1800 => Some("could not initialize Input Manager"),
            1801 => Some("client library not initialized"),
            1802 => Some("server library not initialized"),
            1803 => Some("too many whisper targets"),
            1804 => Some("no whisper targets found"),
            2048 => Some("invalid file name"),
            2049 => Some("invalid file permissions"),
            2050 => Some("file already exists"),
            2051 => Some("file not found"),
            2052 => Some("file input/output error"),
            2053 => Some("invalid file transfer ID"),
            2054 => Some("invalid file path"),
            2055 => Some("no files available"),
            2056 => Some("overwrite excludes resume"),
            2057 => Some("invalid file size"),
            2058 => Some("file already in use"),
            2059 => Some("could not open file transfer connection"),
            2060 => Some("no space left on device (disk full?)"),
            2061 => Some("file exceeds file system's maximum file size"),
            2062 => Some("file transfer connection timeout"),
            2063 => Some("lost file transfer connection"),
            2064 => Some("file exceeds supplied file size"),
            2065 => Some("file transfer complete"),
            2066 => Some("file transfer canceled"),
            2067 => Some("file transfer interrupted"),
            2068 => Some("file transfer server quota exceeded"),
            2069 => Some("file transfer client quota exceeded"),
            2070 => Some("file transfer reset"),
            2071 => Some("file transfer limit reached"),
            2304 => Some("preprocessor disabled"),
            2305 => Some("internal preprocessor"),
            2306 => Some("internal encoder"),
            2307 => Some("internal playback"),
            2308 => Some("no capture device available"),
            2309 => Some("no playback device available"),
            2310 => Some("could not open capture device"),
            2311 => Some("could not open playback device"),
            2312 => Some("ServerConnectionHandler has a device registered"),
            2313 => Some("invalid capture device"),
            2314 => Some("invalid clayback device"),
            2315 => Some("invalid wave file"),
            2316 => Some("wave file type not supported"),
            2317 => Some("could not open wave file"),
            2318 => Some("internal capture"),
            2319 => Some("device still in use"),
            2320 => Some("device already registerred"),
            2321 => Some("device not registered/known"),
            2322 => Some("unsupported frequency"),
            2323 => Some("invalid channel count"),
            2324 => Some("read error in wave"),
            2325 => Some("sound need more data"),
            2326 => Some("sound device was busy"),
            2327 => Some("there is no sound data for this period"),
            2328 => Some("Channelmask set bits count (speakers) is not the same as channel (count)"),
            2560 => Some("invalid group ID"),
            2561 => Some("duplicate entry"),
            2562 => Some("invalid permission ID"),
            2563 => Some("empty result set"),
            2564 => Some("access to default group is forbidden"),
            2565 => Some("invalid size"),
            2566 => Some("invalid value"),
            2567 => Some("group is not empty"),
            2568 => Some("insufficient client permissions"),
            2569 => Some("insufficient group modify power"),
            2570 => Some("insufficient permission modify power"),
            2571 => Some("template group is currently used"),
            2572 => Some("permission error"),
            2816 => Some("virtualserver limit reached"),
            2817 => Some("max slot limit reached"),
            2818 => Some("license file not found"),
            2819 => Some("license date not ok"),
            2820 => Some("unable to connect to accounting server"),
            2821 => Some("unknown accounting error"),
            2822 => Some("accounting server error"),
            2823 => Some("instance limit reached"),
            2824 => Some("instance check error"),
            2825 => Some("license file invalid"),
            2826 => Some("virtualserver is running elsewhere"),
            2827 => Some("virtualserver running in same instance already"),
            2828 => Some("virtualserver already started"),
            2829 => Some("virtualserver not started"),
            3072 => Some("invalid message id"),
            3328 => Some("invalid ban id"),
            3329 => Some("connection failed, you are banned"),
            3330 => Some("rename failed, new name is banned"),
            3331 => Some("flood ban"),
            3584 => Some("unable to initialize tts"),
            3840 => Some("invalid privilege key"),
            4352 => Some("invalid password"),
            4353 => Some("invalid request"),
            4354 => Some("no (more) slots available"),
            4355 => Some("pool missing"),
            4356 => Some("pool unknown"),
            4357 => Some("unknown ip location (perhaps LAN ip?)"),
            4358 => Some("internal error (tried exceeded)"),
            4359 => Some("too many slots requested"),
            4360 => Some("too many reserved"),
            4361 => Some("could not connect to provisioning server"),
            4368 => Some("authentication server not connected"),
            4369 => Some("authentication data too large"),
            4370 => Some("already initialized"),
            4371 => Some("not initialized"),
            4372 => Some("already connecting"),
            4373 => Some("already connected"),
            4375 => Some("io_error"),
            _ => None,
        }
    }

    /// One line of text for this error: the code, its description where the
    /// code is a known one, and the server's message.
    pub fn to_text(&self) -> (r: String)
        ensures
            r@ == error_text(self.id, self.msg@),
    {
        let mut out = String::new();
        match self.error_name() {
            Some(d) => {
                out.append("Error ");
                out.append(decimal_of(self.id as u128).as_str());
                out.append(": ");
                out.append(d);
                out.append(", msg: ");
            },
            None => {
                out.append("Unknown Error code ");
                out.append(decimal_of(self.id as u128).as_str());
                out.append(", msg: ");
            },
        }
        out.append(self.msg.as_str());
        out.append("\n");
        proof {
            assert(Seq::<char>::empty() + "Error "@ == "Error "@);
            assert(Seq::<char>::empty() + "Unknown Error code "@ == "Unknown Error code "@);
        }
        out
    }
}

/// The kinds of I/O failure that the protocol logic tells apart.
#[derive(Debug, Clone, Copy, PartialEq, Eq, Structural)]
pub enum IoErrorKind {
    /// The operation ran into its timeout.
    TimedOut,
    /// The operation would have blocked.
    WouldBlock,
    /// Any other failure.
    Other,
}

/// Everything that can go wrong between sending a command and reading its
/// fields.
#[derive(Debug)]
#[allow(inconsistent_fields)]
pub enum Ts3Error {
    /// A line of the response is not valid UTF-8; `bytes` is the line as read.
    Utf8Error { bytes: Vec<u8> },
    /// Reading or writing the stream failed.
    Io { context: &'static str, kind: IoErrorKind, message: String },
    /// The stream ended where a response was expected.
    ConnectionClosed,
    /// The address names no socket address.
    InvalidSocketAddress,
    /// The server sent something unexpected; `context` says what was
    /// expected, `data` is what was read.
    InvalidResponse { context: &'static str, data: String },
    /// A field's value is not an integer of the requested type; `data` is the
    /// value.
    InvalidIntResponse { data: String },
    /// The server refused the command.
    ServerError { response: ErrorResponse },
    /// The response has more lines than the limit allows; `response` holds
    /// the data lines read until then.
    ResponseLimit { response: Vec<String> },
    /// A line of the response is longer than the limit allows; `response`
    /// holds the data lines read before it.
    OversizedLine { response: Vec<String> },
    /// The client name is longer than allowed.
    InvalidNameLength { length: usize, expected: usize },
    /// The record has no field of that name.
    NoEntryResponse { key: &'static str },
    /// The record has the field, but as a bare name without a value.
    NoValueResponse { key: &'static str },
}

/// The view of a `Ts3Error`: the same variants over sequences.
#[allow(inconsistent_fields)]
pub enum Ts3ErrorView {
    Utf8Error { bytes: Seq<u8> },
    Io { context: Seq<char>, kind: IoErrorKind, message: Seq<char> },
    ConnectionClosed,
    InvalidSocketAddress,
    InvalidResponse { context: Seq<char>, data: Seq<char> },
    InvalidIntResponse { data: Seq<char> },
    ServerError { response: ErrorResponseView },
    ResponseLimit { response: Seq<Seq<char>> },
    OversizedLine { response: Seq<Seq<char>> },
    InvalidNameLength { length: usize, expected: usize },
    NoEntryResponse { key: Seq<char> },
    NoValueResponse { key: Seq<char> },
}

impl View for Ts3Error {
    type V = Ts3ErrorView;

    open spec fn view(&self) -> Ts3ErrorView {
        match self {
            Ts3Error::Utf8Error { bytes } => Ts3ErrorView::Utf8Error { bytes: bytes@ },
            Ts3Error::Io { context, kind, message } => Ts3ErrorView::Io {
                context: context@,
                kind: *kind,
                message: message@,
            },
            Ts3Error::ConnectionClosed => Ts3ErrorView::ConnectionClosed,
            Ts3Error::InvalidSocketAddress => Ts3ErrorView::InvalidSocketAddress,
            Ts3Error::InvalidResponse { context, data } => Ts3ErrorView::InvalidResponse {
                context: context@,
                data: data@,
            },
            Ts3Error::InvalidIntResponse { data } => Ts3ErrorView::InvalidIntResponse {
                data: data@,
            },
            Ts3Error::ServerError { response } => Ts3ErrorView::ServerError {
                response: response@,
            },
            Ts3Error::ResponseLimit { response } => Ts3ErrorView::ResponseLimit {
                response: response.deep_view(),
            },
            Ts3Error::OversizedLine { response } => Ts3ErrorView::OversizedLine {
                response: response.deep_view(),
            },
            Ts3Error::InvalidNameLength { length, expected } => Ts3ErrorView::InvalidNameLength {
                length: *length,
                expected: *expected,
            },
            Ts3Error::NoEntryResponse { key } => Ts3ErrorView::NoEntryResponse { key: key@ },
            Ts3Error::NoValueResponse { key } => Ts3ErrorView::NoValueResponse { key: key@ },
        }
    }
}

impl Ts3Error {
    /// Whether the error is the server's refusal of a command.
    pub fn is_error_response(&self) -> (r: bool)
        ensures
            r == (self@ is ServerError),
    {
        match self {
            Ts3Error::ServerError { .. } => true,
            _ => false,
        }
    }

    /// The server's answer, where the error is the server's refusal of a
    /// command.
    pub fn error_response(&self) -> (r: Option<&ErrorResponse>)
        ensures
            match r {
                Some(e) => self@ == (Ts3ErrorView::ServerError { response: e@ }),
                None => !(self@ is ServerError),
            },
    {
        match self {
            Ts3Error::ServerError { response } => Some(response),
            _ => None,
        }
    }
}

} // verus!
