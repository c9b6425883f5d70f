use vstd::prelude::*;
use crate::config::Pca9685Config;
use crate::errors::HardwareError;
use crate::text::same_text;
use pwm_pca9685::{Address, Channel};

verus! {

#[verifier::external_type_specification]
#[verifier::external_body]
pub struct ExChannel(pwm_pca9685::Channel);

#[verifier::external_type_specification]
#[verifier::external_body]
pub struct ExAddress(pwm_pca9685::Address);

/// The board output that a channel number names.
pub uninterp spec fn output_channel(n: u8) -> Channel;

/// Relies on `TryFrom<u8>` for `pwm_pca9685::Channel`: 0 to 15 name the outputs
/// of the board, any other number is refused.
#[verifier::external_body]
pub(crate) fn channel_from_number(n: u8) -> (r: Option<Channel>)
    ensures
        r == (if n < 16 { Some(output_channel(n)) } else { None }),
{
    Channel::try_from(n).ok()
}

/// Relies on `Default` for `pwm_pca9685::Address`: the board's address when
/// all of its address pins are low.
#[verifier::external_body]
fn default_address() -> Address {
    Address::default()
}

/// Relies on `From<u8>` for `pwm_pca9685::Address`: a board address given as
/// a number.
#[verifier::external_body]
fn address_from_value(a: u8) -> Address {
    Address::from(a)
}

/// The state of a piece of hardware.
#[derive(Debug, PartialEq, Eq)]
pub enum HardwareStatus {
    Operational,
    Error(String),
    Initializing,
    ShuttingDown,
    Offline,
}

impl Clone for HardwareStatus {
    fn clone(&self) -> (r: Self)
        ensures
            r == *self,
    {
        match self {
            HardwareStatus::Operational => HardwareStatus::Operational,
            HardwareStatus::Error(reason) => HardwareStatus::Error(reason.clone()),
            HardwareStatus::Initializing => HardwareStatus::Initializing,
            HardwareStatus::ShuttingDown => HardwareStatus::ShuttingDown,
            HardwareStatus::Offline => HardwareStatus::Offline,
        }
    }
}

/// A piece of hardware with an identity, a kind and a status.
pub trait Hardware {
    spec fn spec_id(&self) -> Seq<char>;

    spec fn spec_status(&self) -> HardwareStatus;

    spec fn spec_hardware_type(&self) -> Seq<char>;

    /// The unique identifier of this hardware.
    fn id(&self) -> (r: &str)
        ensures
            r@ == self.spec_id(),
    ;

    /// The kind of hardware, such as `pwm_board`.
    fn hardware_type(&self) -> (r: &str)
        ensures
            r@ == self.spec_hardware_type(),
    ;

    /// Whether the hardware is working.
    fn is_operational(&self) -> (r: bool)
        ensures
            r == (self.spec_status() is Operational),
    ;

    /// The current status of the hardware.
    fn get_status(&self) -> (r: HardwareStatus)
        ensures
            r == self.spec_status(),
    ;
}

/// Whether `c` is a hexadecimal digit.
pub open spec fn is_hex_digit(c: char) -> bool {
    ('0' <= c <= '9') || ('a' <= c <= 'f') || ('A' <= c <= 'F')
}

/// The value of a hexadecimal digit.
pub open spec fn hex_digit_value(c: char) -> nat {
    if '0' <= c <= '9' {
        (c as nat - '0' as nat) as nat
    } else if 'a' <= c <= 'f' {
        (c as nat - 'a' as nat + 10) as nat
    } else {
        (c as nat - 'A' as nat + 10) as nat
    }
}

/// The value of a string of hexadecimal digits, most significant first.
pub open spec fn hex_value(s: Seq<char>) -> nat
    decreases s.len(),
{
    if s.len() == 0 {
        0
    } else {
        hex_value(s.drop_last()) * 16 + hex_digit_value(s.last())
    }
}

/// `s` without every leading `0x`.
pub open spec fn strip_hex_prefix(s: Seq<char>) -> Seq<char>
    decreases s.len(),
{
    if s.len() >= 2 && s[0] == '0' && s[1] == 'x' {
        strip_hex_prefix(s.subrange(2, s.len() as int))
    } else {
        s
    }
}

/// The digits of an unsigned number: `s` without one leading `+`.
pub open spec fn unsigned_digits(s: Seq<char>) -> Seq<char> {
    if s.len() > 0 && s[0] == '+' {
        s.subrange(1, s.len() as int)
    } else {
        s
    }
}

/// What a bus address text means: `Some(None)` for the board's default
/// address, `Some(Some(a))` for the hexadecimal address `a` (with any leading
/// `0x` removed), `None` for a text that is neither.
pub open spec fn spec_parse_address(s: Seq<char>) -> Option<Option<u8>> {
    if s == "default"@ {
        Some(None)
    } else {
        let d = unsigned_digits(strip_hex_prefix(s));
        if d.len() > 0 && (forall|i: int| 0 <= i < d.len() ==> is_hex_digit(#[trigger] d[i]))
            && hex_value(d) < 256 {
            Some(Some(hex_value(d) as u8))
        } else {
            None
        }
    }
}

/// The value of a hexadecimal digit, or `None` for another character.
fn hex_digit(c: char) -> (r: Option<u32>)
    ensures
        r is Some <==> is_hex_digit(c),
        r is Some ==> r->0 == hex_digit_value(c) && r->0 < 16,
{
    if '0' <= c && c <= '9' {
        Some((c as u32) - ('0' as u32))
    } else if 'a' <= c && c <= 'f' {
        Some((c as u32) - ('a' as u32) + 10)
    } else if 'A' <= c && c <= 'F' {
        Some((c as u32) - ('A' as u32) + 10)
    } else {
        None
    }
}

proof fn lemma_strip_hex_prefix_step(s: Seq<char>, i: int)
    requires
        0 <= i,
        i + 2 <= s.len(),
        s[i] == '0',
        s[i + 1] == 'x',
    ensures
        strip_hex_prefix(s.subrange(i, s.len() as int)) == strip_hex_prefix(
            s.subrange(i + 2, s.len() as int),
        ),
{
    let t = s.subrange(i, s.len() as int);
    assert(t.subrange(2, t.len() as int) == s.subrange(i + 2, s.len() as int));
}

/// Reads a board's bus address: `Ok(None)` for the word `default`,
/// `Ok(Some(a))` for a hexadecimal number that fits a byte, with any leading
/// `0x` removed, and `InvalidParameter` for any other text.
pub fn parse_i2c_address(s: &str) -> (r: Result<Option<u8>, HardwareError>)
    ensures
        r is Ok <==> spec_parse_address(s@) is Some,
        r is Ok ==> r->Ok_0 == spec_parse_address(s@)->0,
        r is Err ==> r->Err_0 is InvalidParameter,
{
    let n = s.unicode_len();
    if same_text(s, "default") {
        return Ok(None);
    }
    let mut i: usize = 0;
    assert(s@.subrange(0, n as int) == s@);
    while n - i > 1 && s.get_char(i) == '0' && s.get_char(i + 1) == 'x'
        invariant
            n == s@.len(),
            i <= n,
            strip_hex_prefix(s@) == strip_hex_prefix(s@.subrange(i as int, n as int)),
        decreases n - i,
    {
        proof {
            lemma_strip_hex_prefix_step(s@, i as int);
        }
        i = i + 2;
    }
    let ghost rest = s@.subrange(i as int, n as int);
    assert(strip_hex_prefix(rest) == rest);
    if i < n && s.get_char(i) == '+' {
        i = i + 1;
    }
    let ghost d = unsigned_digits(rest);
    assert(d == s@.subrange(i as int, n as int));
    let start = i;
    let mut value: u32 = 0;
    while i < n
        invariant
            n == s@.len(),
            start <= i <= n,
            d == s@.subrange(start as int, n as int),
            d == unsigned_digits(strip_hex_prefix(s@)),
            s@ != "default"@,
            forall|k: int| start <= k < i ==> is_hex_digit(#[trigger] s@[k]),
            value as nat == (if hex_value(s@.subrange(start as int, i as int)) < 256 {
                hex_value(s@.subrange(start as int, i as int))
            } else {
                256
            }),
        decreases n - i,
    {
        let c = s.get_char(i);
        match hex_digit(c) {
            Some(v) => {
                let ghost p = s@.subrange(start as int, i as int);
                let ghost q = s@.subrange(start as int, i + 1);
                assert(q.drop_last() == p);
                assert(q.last() == c);
                assert(hex_value(q) == hex_value(p) * 16 + v);
                if value == 256 {
                    assert(hex_value(q) >= 256) by (nonlinear_arith)
                        requires
                            hex_value(p) >= 256,
                            hex_value(q) == hex_value(p) * 16 + v,
                    ;
                } else {
                    value = value * 16 + v;
                    if value > 256 {
                        value = 256;
                    }
                }
                i = i + 1;
            },
            None => {
                assert(d[i - start] == c);
                assert(!is_hex_digit(d[i - start]));
                return Err(HardwareError::InvalidParameter(String::from_str("Invalid I2C address: ").concat(s)));
            },
        }
    }
    assert(s@.subrange(start as int, i as int) == d);
    if start == n || value > 255 {
        return Err(HardwareError::InvalidParameter(String::from_str("Invalid I2C address: ").concat(s)));
    }
    assert forall|k: int| 0 <= k < d.len() implies is_hex_digit(#[trigger] d[k]) by {
        assert(d[k] == s@[start + k]);
    }
    Ok(Some(value as u8))
}

/// One PWM driver board as registered: its configuration, the bus address
/// that its configuration names, and its status.
pub struct Pca9685Controller {
    pub config: Pca9685Config,
    pub address: Address,
    pub status: HardwareStatus,
}

impl Pca9685Controller {
    /// A board record for `config`, still initializing. Fails with
    /// `InvalidParameter` when the bus address is neither `default` nor a
    /// hexadecimal byte.
    pub fn new(config: Pca9685Config) -> (r: Result<Pca9685Controller, HardwareError>)
        ensures
            r is Ok <==> spec_parse_address(config.i2c_address@) is Some,
            r is Ok ==> r->Ok_0.config == config && r->Ok_0.status == HardwareStatus::Initializing,
            r is Err ==> r->Err_0 is InvalidParameter,
    {
        let address = match parse_i2c_address(config.i2c_address.as_str()) {
            Ok(None) => default_address(),
            Ok(Some(a)) => address_from_value(a),
            Err(e) => {
                return Err(e);
            },
        };
        Ok(Pca9685Controller { config, address, status: HardwareStatus::Initializing })
    }

    /// The configuration this board was registered with.
    pub fn get_config(&self) -> (r: &Pca9685Config)
        ensures
            *r == self.config,
    {
        &self.config
    }
}

impl Hardware for Pca9685Controller {
    open spec fn spec_id(&self) -> Seq<char> {
        self.config.id@
    }

    open spec fn spec_status(&self) -> HardwareStatus {
        self.status
    }

    open spec fn spec_hardware_type(&self) -> Seq<char> {
        "pwm_board"@
    }

    fn id(&self) -> (r: &str) {
        self.config.id.as_str()
    }

    fn hardware_type(&self) -> (r: &str) {
        "pwm_board"
    }

    fn is_operational(&self) -> (r: bool) {
        match self.status {
            HardwareStatus::Operational => true,
            _ => false,
        }
    }

    fn get_status(&self) -> (r: HardwareStatus) {
        self.status.clone()
    }
}

} // verus!
