//! Identifiers of tunnels.
use vstd::prelude::*;

verus! {

/// The random identifier of one tunnel.
#[derive(Debug, Clone, Copy, PartialEq, Eq, Structural, Hash)]
pub struct TunnelId {
    value: u128,
}

impl View for TunnelId {
    type V = u128;

    closed spec fn view(&self) -> u128 {
        self.value
    }
}

/// The character of a hexadecimal digit, letters small.
pub open spec fn hex_digit(d: nat) -> char {
    if d < 10 {
        (48 + d) as char
    } else {
        (87 + d) as char
    }
}

/// The last `width` hexadecimal digits of a number, letters small.
pub open spec fn hex_text(n: nat, width: nat) -> Seq<char>
    decreases width,
{
    if width == 0 {
        Seq::empty()
    } else {
        hex_text(n / 16, (width - 1) as nat).push(hex_digit(n % 16))
    }
}

/// How an identifier is written: thirty-two hexadecimal digits.
pub open spec fn id_text(value: u128) -> Seq<char> {
    hex_text(value as nat, 32)
}

/// Whether a number carries the marks of a random identifier: version 4 and
/// the usual variant.
pub open spec fn is_random_id(value: u128) -> bool {
    &&& (value >> 76) & 0xF == 4
    &&& (value >> 62) & 0x3 == 2
}

/// `uuid::Uuid::new_v4` draws a random number and sets the version and variant
/// bits; nothing else holds of every draw.
#[verifier::external_body]
fn random_uuid() -> (value: u128)
    ensures
        is_random_id(value),
{
    uuid::Uuid::new_v4().as_u128()
}

/// `uuid::Uuid::as_simple` writes a number as thirty-two hexadecimal digits,
/// the highest first, letters small, without hyphens.
#[verifier::external_body]
fn simple_uuid_text(value: u128) -> (text: String)
    ensures
        text@ == id_text(value),
{
    uuid::Uuid::from_u128(value).as_simple().to_string()
}

impl TunnelId {
    /// Draws a new identifier.
    pub fn new() -> (id: TunnelId)
        ensures
            is_random_id(id@),
    {
        TunnelId { value: random_uuid() }
    }

    /// The identifier with a given value.
    pub fn from_value(value: u128) -> (id: TunnelId)
        ensures
            id@ == value,
    {
        TunnelId { value }
    }

    /// The value of the identifier.
    pub fn value(&self) -> (value: u128)
        ensures
            value == self@,
    {
        self.value
    }

    /// The identifier as text.
    pub fn to_text(&self) -> (text: String)
        ensures
            text@ == id_text(self@),
    {
        simple_uuid_text(self.value)
    }
}

impl Default for TunnelId {
    fn default() -> (id: TunnelId)
        ensures
            is_random_id(id@),
    {
        TunnelId::new()
    }
}

/// Two identifiers with the same value are the same identifier.
pub proof fn id_is_its_value(a: TunnelId, b: TunnelId)
    requires
        a@ == b@,
    ensures
        a == b,
{
}

/// Different identifiers are written differently.
pub proof fn id_text_is_injective(a: u128, b: u128)
    requires
        id_text(a) == id_text(b),
    ensures
        a == b,
{
    assert(vstd::arithmetic::power::pow(16, 32) == 0x1_0000_0000_0000_0000_0000_0000_0000_0000) by {
        reveal_with_fuel(vstd::arithmetic::power::pow, 33);
    }
    hex_text_is_injective(a as nat, b as nat, 32);
}

/// Numbers that fit in the given count of hexadecimal digits are told apart by
/// those digits.
proof fn hex_text_is_injective(a: nat, b: nat, width: nat)
    requires
        a < vstd::arithmetic::power::pow(16, width),
        b < vstd::arithmetic::power::pow(16, width),
        hex_text(a, width) == hex_text(b, width),
    ensures
        a == b,
    decreases width,
{
    reveal(vstd::arithmetic::power::pow);
    if width > 0 {
        let w = (width - 1) as nat;
        let ta = hex_text(a / 16, w).push(hex_digit(a % 16));
        let tb = hex_text(b / 16, w).push(hex_digit(b % 16));
        hex_text_shape(a / 16, w);
        hex_text_shape(b / 16, w);
        assert(ta == hex_text(a, width));
        assert(ta.last() == tb.last());
        assert(ta.drop_last() =~= hex_text(a / 16, w));
        assert(tb.drop_last() =~= hex_text(b / 16, w));
        assert(vstd::arithmetic::power::pow(16, width) == 16 * vstd::arithmetic::power::pow(16, w));
        hex_text_is_injective(a / 16, b / 16, w);
    }
}

/// Hexadecimal text has the asked width and holds digits and small letters
/// only.
pub proof fn hex_text_shape(n: nat, width: nat)
    ensures
        hex_text(n, width).len() == width,
        forall|i: int|
            0 <= i < width ==> {
                let c = #[trigger] hex_text(n, width)[i];
                48 <= c as u32 <= 57 || 97 <= c as u32 <= 102
            },
    decreases width,
{
    if width > 0 {
        hex_text_shape(n / 16, (width - 1) as nat);
    }
}

} // verus!
