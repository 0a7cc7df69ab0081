use crate::decimal::spec_decimal;
use crate::decimal::u64_to_decimal;
use crate::server::RequestType;
use crate::text::str_eq;
use vstd::prelude::*;
use vstd::string::StringSliceAdditionalSpecFns;
use vstd::utf8::encode_utf8;
use vstd::utf8::is_ascii_chars;
use vstd::utf8::is_ascii_chars_encode_utf8;

verus! {

/// Block size used when none is negotiated.
pub const DEFAULT_BLOCK_SIZE: u16 = 512;

/// Largest block size that can be negotiated.
pub const MAX_BLOCK_SIZE: u16 = 65464;

/// Window size used when none is negotiated.
pub const DEFAULT_WINDOW_SIZE: u16 = 1;

/// Timeout, in seconds, used when none is negotiated.
pub const DEFAULT_TIMEOUT_SECS: u64 = 5;

/// Longest timeout, in seconds, that can be negotiated.
pub const MAX_TIMEOUT_SECS: u64 = 255;

/// Longest timeout, in milliseconds, that can be negotiated.
pub const MAX_TIMEOUT_MILLIS: u64 = 255000;

/// Number of timeouts a transfer survives.
pub const DEFAULT_MAX_RETRIES: usize = 6;

/// A span of time with millisecond resolution.
#[derive(Clone, Copy, Debug, PartialEq, Eq, Structural)]
pub struct Duration {
    secs: u64,
    millis: u16,
}

impl View for Duration {
    type V = nat;

    /// The span in milliseconds.
    closed spec fn view(&self) -> nat {
        (self.secs * 1000 + self.millis % 1000) as nat
    }
}

impl Duration {
    /// Whether the fields are in their normal form, as every constructor
    /// leaves them.
    pub closed spec fn wf(&self) -> bool {
        self.millis < 1000
    }

    /// The span of `secs` whole seconds.
    pub closed spec fn spec_from_secs(secs: u64) -> Duration {
        Duration { secs, millis: 0 }
    }

    /// The span of `millis` milliseconds.
    pub closed spec fn spec_from_millis(millis: u64) -> Duration {
        Duration { secs: millis / 1000, millis: (millis % 1000) as u16 }
    }

    /// What the two constructors build: well-formed spans of the length
    /// asked for.
    pub broadcast proof fn lemma_constructors(n: u64)
        ensures
            #[trigger] Duration::spec_from_secs(n).wf(),
            Duration::spec_from_secs(n)@ == n * 1000,
            #[trigger] Duration::spec_from_millis(n).wf(),
            Duration::spec_from_millis(n)@ == n,
    {
    }

    /// Two well-formed spans of the same length are the same value.
    pub proof fn lemma_view_injective(a: Duration, b: Duration)
        requires
            a.wf(),
            b.wf(),
            a@ == b@,
        ensures
            a == b,
    {
    }

    /// A span of `secs` whole seconds.
    #[verifier::when_used_as_spec(spec_from_secs)]
    pub fn from_secs(secs: u64) -> (r: Duration)
        ensures
            r == Duration::spec_from_secs(secs),
            r.wf(),
            r@ == secs * 1000,
    {
        Duration { secs, millis: 0 }
    }

    /// A span of `millis` milliseconds.
    #[verifier::when_used_as_spec(spec_from_millis)]
    pub fn from_millis(millis: u64) -> (r: Duration)
        ensures
            r == Duration::spec_from_millis(millis),
            r.wf(),
            r@ == millis,
    {
        Duration { secs: millis / 1000, millis: (millis % 1000) as u16 }
    }

    /// The whole seconds of the span.
    pub fn as_secs(&self) -> (r: u64)
        ensures
            r == self@ / 1000,
    {
        self.secs
    }

    /// The milliseconds beyond the whole seconds.
    pub fn subsec_millis(&self) -> (r: u16)
        ensures
            r == self@ % 1000,
    {
        self.millis % 1000
    }

    /// The span in milliseconds.
    pub fn as_millis(&self) -> (r: u128)
        ensures
            r == self@,
    {
        self.secs as u128 * 1000 + (self.millis % 1000) as u128
    }

    /// Whether the span is empty.
    pub fn is_zero(&self) -> (r: bool)
        ensures
            r == (self@ == 0),
    {
        self.secs == 0 && self.millis % 1000 == 0
    }
}

/// What a sender or receiver does when the 16-bit block counter wraps.
#[derive(Clone, Copy, Debug, PartialEq, Eq, Structural)]
pub enum Rollover {
    /// Wrapping is an error.
    Forbidden,
    /// The block after 65535 is 0.
    Enforce0,
    /// The block after 65535 is 1.
    Enforce1,
    /// Sends 0 after 65535, accepts 0 or 1.
    DontCare,
}

/// Options local to one endpoint; they never travel on the wire.
#[derive(Clone, Copy, Debug, PartialEq, Eq, Structural)]
pub struct OptionsPrivate {
    /// How many times each outbound packet is sent.
    pub repeat_count: u8,
    /// Whether a partially received file is removed on failure.
    pub clean_on_error: bool,
    /// Number of timeouts a transfer survives.
    pub max_retries: usize,
    /// Block counter roll-over policy.
    pub rollover: Rollover,
}

impl Default for OptionsPrivate {
    fn default() -> (r: Self)
        ensures
            r == (OptionsPrivate {
                repeat_count: 1,
                clean_on_error: true,
                max_retries: DEFAULT_MAX_RETRIES,
                rollover: Rollover::Enforce0,
            }),
    {
        OptionsPrivate {
            repeat_count: 1,
            clean_on_error: true,
            max_retries: DEFAULT_MAX_RETRIES,
            rollover: Rollover::Enforce0,
        }
    }
}

/// The kinds of transfer option.
#[derive(Clone, Copy, Debug, PartialEq, Eq, Structural)]
pub enum OptionType {
    /// `blksize`
    BlockSize,
    /// `tsize`
    TransferSize,
    /// `timeout`, in seconds
    Timeout,
    /// `timeoutms`, in milliseconds
    TimeoutMs,
    /// `windowsize`
    WindowSize,
    /// `windowwait`, in milliseconds
    WindowWait,
}

/// One option of a request or of an option acknowledgement.
#[derive(Clone, Copy, Debug, PartialEq, Eq, Structural)]
pub struct TransferOption {
    /// Kind of the option.
    pub option: OptionType,
    /// Value of the option.
    pub value: u64,
}

/// The lower-case ASCII letter for an upper-case one; any other byte as it is.
pub open spec fn spec_ascii_lower(byte: u8) -> u8 {
    if 65 <= byte <= 90 {
        (byte + 32) as u8
    } else {
        byte
    }
}

/// Whether `a` and `b` are equal but for the case of ASCII letters.
pub open spec fn spec_eq_ignore_case(a: Seq<u8>, b: Seq<u8>) -> bool {
    a.len() == b.len() && forall|i: int|
        0 <= i < a.len() ==> spec_ascii_lower(#[trigger] a[i]) == spec_ascii_lower(b[i])
}

impl OptionType {
    /// The wire token of the option kind, as text.
    pub open spec fn spec_name(self) -> Seq<char> {
        match self {
            OptionType::BlockSize => "blksize"@,
            OptionType::TransferSize => "tsize"@,
            OptionType::Timeout => "timeout"@,
            OptionType::TimeoutMs => "timeoutms"@,
            OptionType::WindowSize => "windowsize"@,
            OptionType::WindowWait => "windowwait"@,
        }
    }

    /// The wire token of the option kind, as bytes.
    pub open spec fn spec_name_bytes(self) -> Seq<u8> {
        match self {
            OptionType::BlockSize => seq![98u8, 108, 107, 115, 105, 122, 101],
            OptionType::TransferSize => seq![116u8, 115, 105, 122, 101],
            OptionType::Timeout => seq![116u8, 105, 109, 101, 111, 117, 116],
            OptionType::TimeoutMs => seq![116u8, 105, 109, 101, 111, 117, 116, 109, 115],
            OptionType::WindowSize => seq![119u8, 105, 110, 100, 111, 119, 115, 105, 122, 101],
            OptionType::WindowWait => seq![119u8, 105, 110, 100, 111, 119, 119, 97, 105, 116],
        }
    }

    /// The option kind that the wire token `name` names, whatever the case
    /// of its letters.
    pub open spec fn spec_from_name(name: Seq<u8>) -> Option<OptionType> {
        if spec_eq_ignore_case(name, OptionType::BlockSize.spec_name_bytes()) {
            Some(OptionType::BlockSize)
        } else if spec_eq_ignore_case(name, OptionType::TransferSize.spec_name_bytes()) {
            Some(OptionType::TransferSize)
        } else if spec_eq_ignore_case(name, OptionType::Timeout.spec_name_bytes()) {
            Some(OptionType::Timeout)
        } else if spec_eq_ignore_case(name, OptionType::TimeoutMs.spec_name_bytes()) {
            Some(OptionType::TimeoutMs)
        } else if spec_eq_ignore_case(name, OptionType::WindowSize.spec_name_bytes()) {
            Some(OptionType::WindowSize)
        } else if spec_eq_ignore_case(name, OptionType::WindowWait.spec_name_bytes()) {
            Some(OptionType::WindowWait)
        } else {
            None
        }
    }

    /// The text token is ASCII and its UTF-8 bytes are the byte token.
    pub proof fn lemma_name_bytes(self)
        ensures
            encode_utf8(self.spec_name()) == self.spec_name_bytes(),
            forall|i: int| 0 <= i < self.spec_name_bytes().len() ==> self.spec_name_bytes()[i] != 0,
    {
        reveal_strlit("blksize");
        reveal_strlit("tsize");
        reveal_strlit("timeout");
        reveal_strlit("timeoutms");
        reveal_strlit("windowsize");
        reveal_strlit("windowwait");
        let name = self.spec_name();
        assert(is_ascii_chars(name));
        is_ascii_chars_encode_utf8(name);
        assert(encode_utf8(name) =~= self.spec_name_bytes());
    }

    /// Every token names its own kind.
    pub proof fn lemma_from_name_of_name(self)
        ensures
            OptionType::spec_from_name(self.spec_name_bytes()) == Some(self),
    {
        let name = self.spec_name_bytes();
        if self != OptionType::BlockSize {
            let other = OptionType::BlockSize.spec_name_bytes();
            assert(name.len() != other.len() || spec_ascii_lower(name[0]) != spec_ascii_lower(
                other[0],
            ));
        }
        if self != OptionType::TransferSize && self != OptionType::BlockSize {
            let other = OptionType::TransferSize.spec_name_bytes();
            assert(name.len() != other.len() || spec_ascii_lower(name[1]) != spec_ascii_lower(
                other[1],
            ));
        }
        if self == OptionType::TimeoutMs {
            assert(name.len() != OptionType::Timeout.spec_name_bytes().len());
        }
        if self == OptionType::WindowSize || self == OptionType::WindowWait {
            assert(spec_ascii_lower(name[0]) != spec_ascii_lower(
                OptionType::Timeout.spec_name_bytes()[0],
            ));
            assert(spec_ascii_lower(name[0]) != spec_ascii_lower(
                OptionType::TimeoutMs.spec_name_bytes()[0],
            ));
        }
        if self == OptionType::WindowWait {
            assert(spec_ascii_lower(name[6]) != spec_ascii_lower(
                OptionType::WindowSize.spec_name_bytes()[6],
            ));
        }
    }

    /// The wire token of the option kind.
    pub fn as_str(&self) -> (r: &'static str)
        ensures
            r@ == self.spec_name(),
    {
        match self {
            OptionType::BlockSize => "blksize",
            OptionType::TransferSize => "tsize",
            OptionType::Timeout => "timeout",
            OptionType::TimeoutMs => "timeoutms",
            OptionType::WindowSize => "windowsize",
            OptionType::WindowWait => "windowwait",
        }
    }

    /// Whether `name` is the token of this kind, whatever the case of its
    /// letters.
    fn names(&self, name: &[u8]) -> (r: bool)
        ensures
            r == spec_eq_ignore_case(name@, self.spec_name_bytes()),
    {
        let token = self.as_str().as_bytes();
        proof {
            self.lemma_name_bytes();
        }
        if name.len() != token.len() {
            return false;
        }
        let mut i: usize = 0;
        while i < name.len()
            invariant
                i <= name@.len(),
                name@.len() == token@.len(),
                token@ == self.spec_name_bytes(),
                forall|j: int|
                    0 <= j < i ==> spec_ascii_lower(#[trigger] name@[j]) == spec_ascii_lower(
                        token@[j],
                    ),
            decreases name@.len() - i,
        {
            let a: u8 = name[i];
            let b: u8 = token[i];
            let la: u8 = if 65 <= a && a <= 90 { a + 32 } else { a };
            let lb: u8 = if 65 <= b && b <= 90 { b + 32 } else { b };
            if la != lb {
                return false;
            }
            i += 1;
        }
        true
    }

    /// The option kind whose wire token is exactly `value`.
    pub open spec fn spec_parse_name(value: Seq<char>) -> Option<OptionType> {
        if value == OptionType::BlockSize.spec_name() {
            Some(OptionType::BlockSize)
        } else if value == OptionType::TransferSize.spec_name() {
            Some(OptionType::TransferSize)
        } else if value == OptionType::Timeout.spec_name() {
            Some(OptionType::Timeout)
        } else if value == OptionType::TimeoutMs.spec_name() {
            Some(OptionType::TimeoutMs)
        } else if value == OptionType::WindowSize.spec_name() {
            Some(OptionType::WindowSize)
        } else if value == OptionType::WindowWait.spec_name() {
            Some(OptionType::WindowWait)
        } else {
            None
        }
    }

    /// The option kind whose wire token is exactly `value`, in lower
    /// case; the error `Invalid option type` for any other text.
    pub fn parse_name(value: &str) -> (r: Result<OptionType, &'static str>)
        ensures
            match OptionType::spec_parse_name(value@) {
                Some(kind) => r == Ok::<OptionType, &'static str>(kind),
                None => r matches Err(text) && text@ == "Invalid option type"@,
            },
    {
        if str_eq(value, OptionType::BlockSize.as_str()) {
            Ok(OptionType::BlockSize)
        } else if str_eq(value, OptionType::TransferSize.as_str()) {
            Ok(OptionType::TransferSize)
        } else if str_eq(value, OptionType::Timeout.as_str()) {
            Ok(OptionType::Timeout)
        } else if str_eq(value, OptionType::TimeoutMs.as_str()) {
            Ok(OptionType::TimeoutMs)
        } else if str_eq(value, OptionType::WindowSize.as_str()) {
            Ok(OptionType::WindowSize)
        } else if str_eq(value, OptionType::WindowWait.as_str()) {
            Ok(OptionType::WindowWait)
        } else {
            Err("Invalid option type")
        }
    }

    /// The option kind named by the wire token `name`, read without regard
    /// to the case of its letters.
    pub fn from_name(name: &[u8]) -> (r: Option<OptionType>)
        ensures
            r == OptionType::spec_from_name(name@),
    {
        if OptionType::BlockSize.names(name) {
            Some(OptionType::BlockSize)
        } else if OptionType::TransferSize.names(name) {
            Some(OptionType::TransferSize)
        } else if OptionType::Timeout.names(name) {
            Some(OptionType::Timeout)
        } else if OptionType::TimeoutMs.names(name) {
            Some(OptionType::TimeoutMs)
        } else if OptionType::WindowSize.names(name) {
            Some(OptionType::WindowSize)
        } else if OptionType::WindowWait.names(name) {
            Some(OptionType::WindowWait)
        } else {
            None
        }
    }
}

impl core::str::FromStr for OptionType {
    type Err = &'static str;

    /// The option kind whose wire token is exactly `value`, as
    /// `OptionType::parse_name` gives it.
    fn from_str(value: &str) -> (r: Result<OptionType, &'static str>)
        ensures
            match OptionType::spec_parse_name(value@) {
                Some(kind) => r == Ok::<OptionType, &'static str>(kind),
                None => r matches Err(text) && text@ == "Invalid option type"@,
            },
    {
        OptionType::parse_name(value)
    }
}

/// The wire form of one option: token, zero, decimal value, zero.
pub open spec fn spec_option_bytes(option: TransferOption) -> Seq<u8> {
    option.option.spec_name_bytes() + seq![0u8] + spec_decimal(option.value as nat) + seq![0u8]
}

/// The wire form of a list of options, one after the other.
pub open spec fn spec_options_bytes(options: Seq<TransferOption>) -> Seq<u8>
    decreases options.len(),
{
    if options.len() == 0 {
        Seq::<u8>::empty()
    } else {
        spec_option_bytes(options[0]) + spec_options_bytes(options.drop_first())
    }
}

/// Appends the bytes of `tail` to `out`.
pub fn append_bytes(out: &mut Vec<u8>, tail: &[u8])
    ensures
        final(out)@ == old(out)@ + tail@,
{
    let mut i: usize = 0;
    while i < tail.len()
        invariant
            i <= tail@.len(),
            out@ == old(out)@ + tail@.subrange(0, i as int),
        decreases tail@.len() - i,
    {
        out.push(tail[i]);
        i += 1;
        assert(out@ =~= old(out)@ + tail@.subrange(0, i as int));
    }
    assert(tail@.subrange(0, i as int) =~= tail@);
}

impl TransferOption {
    /// The wire form of the option.
    pub fn as_bytes(&self) -> (r: Vec<u8>)
        ensures
            r@ == spec_option_bytes(*self),
    {
        let mut out: Vec<u8> = Vec::new();
        proof {
            self.option.lemma_name_bytes();
        }
        append_bytes(&mut out, self.option.as_str().as_bytes());
        out.push(0);
        let digits = u64_to_decimal(self.value);
        append_bytes(&mut out, digits.as_slice());
        out.push(0);
        assert(out@ =~= spec_option_bytes(*self));
        out
    }
}

/// The options negotiated for one transfer, the same on both peers once
/// the option acknowledgement is accepted.
#[derive(Clone, Copy, Debug, PartialEq, Eq, Structural)]
pub struct OptionsProtocol {
    /// Bytes per data block.
    pub block_size: u16,
    /// Data blocks per acknowledgement.
    pub window_size: u16,
    /// Pause between the packets of one window.
    pub window_wait: Duration,
    /// How long to wait for the peer before a retry.
    pub timeout: Duration,
    /// Length of the file in bytes, when announced.
    pub transfer_size: Option<u64>,
}

/// The value the server accepts for an offered option: the offered value
/// brought into the legal range, and for the transfer size of a read the
/// true length of the file.
pub open spec fn spec_negotiate(option: TransferOption, request: RequestType) -> TransferOption {
    let v = option.value;
    let value: u64 = match option.option {
        OptionType::BlockSize => if v == 0 {
            DEFAULT_BLOCK_SIZE as u64
        } else if v > MAX_BLOCK_SIZE {
            MAX_BLOCK_SIZE as u64
        } else {
            v
        },
        OptionType::TransferSize => match request {
            RequestType::Read(size) => size,
            RequestType::Write => v,
        },
        OptionType::Timeout => if v == 0 {
            1
        } else if v > MAX_TIMEOUT_SECS {
            MAX_TIMEOUT_SECS
        } else {
            v
        },
        OptionType::TimeoutMs => if v == 0 {
            1
        } else if v > MAX_TIMEOUT_MILLIS {
            MAX_TIMEOUT_MILLIS
        } else {
            v
        },
        OptionType::WindowSize => if v == 0 {
            1
        } else if v > 65535 {
            65535
        } else {
            v
        },
        OptionType::WindowWait => v,
    };
    TransferOption { option: option.option, value }
}

/// The options after recording one accepted option. A block or window
/// size beyond 16 bits keeps its low 16 bits.
pub open spec fn spec_set(current: OptionsProtocol, option: TransferOption) -> OptionsProtocol {
    let v = option.value;
    match option.option {
        OptionType::BlockSize => OptionsProtocol { block_size: (v % 65536) as u16, ..current },
        OptionType::WindowSize => OptionsProtocol { window_size: (v % 65536) as u16, ..current },
        OptionType::WindowWait => OptionsProtocol {
            window_wait: Duration::spec_from_millis(v),
            ..current
        },
        OptionType::Timeout => OptionsProtocol { timeout: Duration::spec_from_secs(v), ..current },
        OptionType::TimeoutMs => OptionsProtocol {
            timeout: Duration::spec_from_millis(v),
            ..current
        },
        OptionType::TransferSize => OptionsProtocol { transfer_size: Some(v), ..current },
    }
}

/// The options after recording a list of accepted options in order; of two
/// options of one kind the later one stands.
pub open spec fn spec_set_all(start: OptionsProtocol, options: Seq<TransferOption>) -> OptionsProtocol
    decreases options.len(),
{
    if options.len() == 0 {
        start
    } else {
        spec_set(spec_set_all(start, options.drop_last()), options.last())
    }
}

/// The value of the last option of kind `kind` in `options`, if there is
/// one.
pub open spec fn spec_last_value(options: Seq<TransferOption>, kind: OptionType) -> Option<u64>
    decreases options.len(),
{
    if options.len() == 0 {
        None
    } else if options.last().option == kind {
        Some(options.last().value)
    } else {
        spec_last_value(options.drop_last(), kind)
    }
}

/// The timeout that the last option of `options` which names one asks
/// for, be it in seconds or in milliseconds, if there is such an option.
pub open spec fn spec_last_timeout(options: Seq<TransferOption>) -> Option<Duration>
    decreases options.len(),
{
    if options.len() == 0 {
        None
    } else if options.last().option == OptionType::Timeout {
        Some(Duration::spec_from_secs(options.last().value))
    } else if options.last().option == OptionType::TimeoutMs {
        Some(Duration::spec_from_millis(options.last().value))
    } else {
        spec_last_timeout(options.drop_last())
    }
}

impl OptionsProtocol {
    /// The options in force when nothing was negotiated.
    pub open spec fn spec_default() -> OptionsProtocol {
        OptionsProtocol {
            block_size: DEFAULT_BLOCK_SIZE,
            window_size: DEFAULT_WINDOW_SIZE,
            window_wait: Duration::spec_from_millis(0),
            timeout: Duration::spec_from_secs(DEFAULT_TIMEOUT_SECS),
            transfer_size: None,
        }
    }

    /// Whether every value lies in its legal range: a block of 1 to 65464
    /// bytes, a window of at least one block, a timeout of 1 ms to 255 s.
    pub open spec fn valid(self) -> bool {
        &&& 1 <= self.block_size <= MAX_BLOCK_SIZE
        &&& 1 <= self.window_size
        &&& 1 <= self.timeout@ <= MAX_TIMEOUT_MILLIS
    }

    /// Whether every value lies in its legal range.
    pub fn is_valid(&self) -> (r: bool)
        ensures
            r == self.valid(),
    {
        let millis: u128 = self.timeout.as_millis();
        1 <= self.block_size && self.block_size <= MAX_BLOCK_SIZE && 1 <= self.window_size && 1
            <= millis && millis <= MAX_TIMEOUT_MILLIS as u128
    }

    /// Whether the timeout is offered in whole seconds rather than in
    /// milliseconds.
    pub open spec fn spec_whole_seconds(self) -> bool {
        self.timeout@ % 1000 == 0
    }

    /// Whether a client with these options offers the option that an
    /// option of kind `kind` answers. Block size, transfer size, window
    /// size and the timeout are offered by every client, the timeout as
    /// one option in one unit or the other; the window wait is offered
    /// when it is not zero.
    pub open spec fn spec_offers(self, kind: OptionType) -> bool {
        match kind {
            OptionType::WindowWait => self.window_wait@ != 0,
            _ => true,
        }
    }

    /// The low 64 bits of a span in milliseconds, as it is written on the
    /// wire.
    pub open spec fn spec_wire_millis(span: Duration) -> u64 {
        (span@ % 0x1_0000_0000_0000_0000) as u64
    }

    /// The options that a client with these options offers in its request.
    pub open spec fn spec_prepare(self) -> Seq<TransferOption> {
        let sizes = seq![
            TransferOption { option: OptionType::BlockSize, value: self.block_size as u64 },
            TransferOption {
                option: OptionType::TransferSize,
                value: match self.transfer_size {
                    Some(size) => size,
                    None => 0,
                },
            },
            TransferOption { option: OptionType::WindowSize, value: self.window_size as u64 },
        ];
        let wait = if self.window_wait@ != 0 {
            seq![
                TransferOption {
                    option: OptionType::WindowWait,
                    value: Self::spec_wire_millis(self.window_wait),
                },
            ]
        } else {
            Seq::<TransferOption>::empty()
        };
        let timeout = if self.spec_whole_seconds() {
            TransferOption {
                option: OptionType::Timeout,
                value: (self.timeout@ / 1000 % 0x1_0000_0000_0000_0000) as u64,
            }
        } else {
            TransferOption {
                option: OptionType::TimeoutMs,
                value: Self::spec_wire_millis(self.timeout),
            }
        };
        sizes + wait + seq![timeout]
    }

    /// What the server makes of the offered options: each brought into its
    /// legal range, then recorded over the defaults.
    pub open spec fn spec_parse(options: Seq<TransferOption>, request: RequestType) -> OptionsProtocol {
        spec_set_all(
            Self::spec_default(),
            Seq::new(options.len(), |i: int| spec_negotiate(options[i], request)),
        )
    }

    /// What a client with these options makes of the server's option
    /// acknowledgement. For each option that the client offered, the
    /// value of the last option in the acknowledgement that answers it, as
    /// the server returned it, or the default where there is none; the
    /// default for an option that the client did not offer, whatever the
    /// acknowledgement holds. The timeout is one option, which the server
    /// may answer in seconds or in milliseconds.
    pub open spec fn spec_apply(self, oack: Seq<TransferOption>) -> OptionsProtocol {
        OptionsProtocol {
            block_size: match spec_last_value(oack, OptionType::BlockSize) {
                Some(v) => (v % 65536) as u16,
                None => DEFAULT_BLOCK_SIZE,
            },
            window_size: match spec_last_value(oack, OptionType::WindowSize) {
                Some(v) => (v % 65536) as u16,
                None => DEFAULT_WINDOW_SIZE,
            },
            window_wait: match spec_last_value(oack, OptionType::WindowWait) {
                Some(v) if self.spec_offers(OptionType::WindowWait) => Duration::spec_from_millis(v),
                _ => Duration::spec_from_millis(0),
            },
            timeout: match spec_last_timeout(oack) {
                Some(span) => span,
                None => Duration::spec_from_secs(DEFAULT_TIMEOUT_SECS),
            },
            transfer_size: spec_last_value(oack, OptionType::TransferSize),
        }
    }

    /// Applying an option acknowledgement a second time changes nothing.
    pub proof fn lemma_apply_idempotent(self, oack: Seq<TransferOption>)
        ensures
            self.spec_apply(oack).spec_apply(oack) == self.spec_apply(oack),
    {
        broadcast use Duration::lemma_constructors;

        let once = self.spec_apply(oack);
        let twice = once.spec_apply(oack);
        if once.window_wait@ == 0 {
            Duration::lemma_view_injective(once.window_wait, Duration::spec_from_millis(0));
        }
    }

    /// The low 64 bits of a span in milliseconds.
    fn wire_millis(span: Duration) -> (r: u64)
        ensures
            r == Self::spec_wire_millis(span),
    {
        (span.as_millis() % 0x1_0000_0000_0000_0000u128) as u64
    }

    /// The options that the client offers in its request: block size,
    /// transfer size and window size always, the window wait when it is
    /// not zero, and the timeout in seconds when it is a whole number of
    /// seconds, else in milliseconds.
    pub fn prepare(&self) -> (r: Vec<TransferOption>)
        ensures
            r@ == self.spec_prepare(),
    {
        let mut options: Vec<TransferOption> = Vec::new();
        options.push(TransferOption { option: OptionType::BlockSize, value: self.block_size as u64 });
        options.push(
            TransferOption {
                option: OptionType::TransferSize,
                value: match self.transfer_size {
                    Some(size) => size,
                    None => 0,
                },
            },
        );
        options.push(
            TransferOption { option: OptionType::WindowSize, value: self.window_size as u64 },
        );
        if !self.window_wait.is_zero() {
            options.push(
                TransferOption {
                    option: OptionType::WindowWait,
                    value: Self::wire_millis(self.window_wait),
                },
            );
        }
        if self.timeout.subsec_millis() == 0 {
            options.push(
                TransferOption { option: OptionType::Timeout, value: self.timeout.as_secs() },
            );
        } else {
            options.push(
                TransferOption {
                    option: OptionType::TimeoutMs,
                    value: Self::wire_millis(self.timeout),
                },
            );
        }
        assert(options@ =~= self.spec_prepare());
        options
    }

    /// Records one accepted option.
    fn set(&mut self, option: TransferOption)
        ensures
            *final(self) == spec_set(*old(self), option),
    {
        match option.option {
            OptionType::BlockSize => {
                self.block_size = (option.value % 65536) as u16;
            },
            OptionType::WindowSize => {
                self.window_size = (option.value % 65536) as u16;
            },
            OptionType::WindowWait => {
                self.window_wait = Duration::from_millis(option.value);
            },
            OptionType::Timeout => {
                self.timeout = Duration::from_secs(option.value);
            },
            OptionType::TimeoutMs => {
                self.timeout = Duration::from_millis(option.value);
            },
            OptionType::TransferSize => {
                self.transfer_size = Some(option.value);
            },
        }
    }

    /// Negotiates the options offered in a request, on the server. Each
    /// option of `options` is replaced by the value the server accepts,
    /// in place and in order, and the result holds those values over the
    /// defaults. Never fails.
    pub fn parse(options: &mut [TransferOption], request_type: RequestType) -> (r: Result<
        OptionsProtocol,
        &'static str,
    >)
        ensures
            final(options)@ == Seq::new(
                old(options)@.len(),
                |i: int| spec_negotiate(old(options)@[i], request_type),
            ),
            r == Ok::<OptionsProtocol, &'static str>(
                Self::spec_parse(old(options)@, request_type),
            ),
    {
        let mut accepted = OptionsProtocol::default();
        let ghost offered = options@;
        let ghost goal = Seq::new(offered.len(), |i: int| spec_negotiate(offered[i], request_type));
        let n: usize = options.len();
        let mut i: usize = 0;
        while i < n
            invariant
                i <= n,
                n == offered.len(),
                options@.len() == n,
                goal == Seq::new(offered.len(), |i: int| spec_negotiate(offered[i], request_type)),
                forall|j: int| 0 <= j < i ==> options@[j] == goal[j],
                forall|j: int| i <= j < n ==> options@[j] == offered[j],
                accepted == spec_set_all(Self::spec_default(), goal.subrange(0, i as int)),
            decreases n - i,
        {
            let offer: TransferOption = options[i];
            let v: u64 = offer.value;
            let value: u64 = match offer.option {
                OptionType::BlockSize => if v == 0 {
                    DEFAULT_BLOCK_SIZE as u64
                } else if v > MAX_BLOCK_SIZE as u64 {
                    MAX_BLOCK_SIZE as u64
                } else {
                    v
                },
                OptionType::TransferSize => match request_type {
                    RequestType::Read(size) => size,
                    RequestType::Write => v,
                },
                OptionType::Timeout => if v == 0 {
                    1
                } else if v > MAX_TIMEOUT_SECS {
                    MAX_TIMEOUT_SECS
                } else {
                    v
                },
                OptionType::TimeoutMs => if v == 0 {
                    1
                } else if v > MAX_TIMEOUT_MILLIS {
                    MAX_TIMEOUT_MILLIS
                } else {
                    v
                },
                OptionType::WindowSize => if v == 0 {
                    1
                } else if v > 65535 {
                    65535
                } else {
                    v
                },
                OptionType::WindowWait => v,
            };
            let chosen = TransferOption { option: offer.option, value };
            assert(chosen == goal[i as int]);
            options[i] = chosen;
            accepted.set(chosen);
            proof {
                assert(goal.subrange(0, i + 1).drop_last() =~= goal.subrange(0, i as int));
            }
            i += 1;
        }
        assert(goal.subrange(0, n as int) =~= goal);
        assert(options@ =~= goal);
        Ok(accepted)
    }

    /// Takes over the server's option acknowledgement, on the client. The
    /// values of offered options are accepted as the server returned them,
    /// an offered option that the server left out falls back to its
    /// default, and an option that was not offered is ignored. Applying
    /// the same acknowledgement again changes nothing. Never fails.
    pub fn apply(&mut self, options: &Vec<TransferOption>) -> (r: Result<(), &'static str>)
        ensures
            r is Ok,
            *final(self) == old(self).spec_apply(options@),
    {
        let offering: OptionsProtocol = *self;
        let mut accepted = OptionsProtocol::default();
        let mut i: usize = 0;
        assert(options@.subrange(0, 0) =~= Seq::<TransferOption>::empty());
        while i < options.len()
            invariant
                i <= options@.len(),
                offering == *old(self),
                accepted == offering.spec_apply(options@.subrange(0, i as int)),
            decreases options@.len() - i,
        {
            let option: TransferOption = options[i];
            let ghost before = options@.subrange(0, i as int);
            let ghost after = options@.subrange(0, i + 1);
            proof {
                assert(after.drop_last() =~= before);
                assert(after.last() == option);
            }
            let offered: bool = match option.option {
                OptionType::WindowWait => !offering.window_wait.is_zero(),
                _ => true,
            };
            if offered {
                accepted.set(option);
            }
            i += 1;
        }
        assert(options@.subrange(0, i as int) =~= options@);
        *self = accepted;
        Ok(())
    }
}

impl Default for OptionsProtocol {
    fn default() -> (r: Self)
        ensures
            r == OptionsProtocol::spec_default(),
    {
        OptionsProtocol {
            block_size: DEFAULT_BLOCK_SIZE,
            window_size: DEFAULT_WINDOW_SIZE,
            window_wait: Duration::from_millis(0),
            timeout: Duration::from_secs(DEFAULT_TIMEOUT_SECS),
            transfer_size: None,
        }
    }
}

} // verus!
