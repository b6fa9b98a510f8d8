use vstd::prelude::*;

verus! {

/// A user's stable identifier: the 128-bit value of a UUID.
#[derive(Clone, Copy, Debug, PartialEq, Eq, Structural, Hash)]
pub struct Identity {
    pub value: u128,
}

/// Lower-case hexadecimal digit for `n` (0-15).
pub open spec fn hex_digit(n: nat) -> char {
    if n < 10 {
        (n + 48) as char
    } else {
        (n + 87) as char
    }
}

/// The `n` low-order hexadecimal digits of `v`, most significant first.
pub open spec fn hex_digits(v: nat, n: nat) -> Seq<char>
    decreases n,
{
    if n == 0 {
        Seq::empty()
    } else {
        hex_digits(v / 16, (n - 1) as nat).push(hex_digit(v % 16))
    }
}

/// Canonical text of a UUID value: 32 lower-case hex digits grouped 8-4-4-4-12
/// and joined by hyphens.
pub open spec fn uuid_text(v: u128) -> Seq<char> {
    let h = hex_digits(v as nat, 32);
    h.subrange(0, 8) + seq!['-'] + h.subrange(8, 12) + seq!['-'] + h.subrange(12, 16) + seq!['-']
        + h.subrange(16, 20) + seq!['-'] + h.subrange(20, 32)
}

/// What `uuid::Uuid::parse_str` yields on text that is not canonical UUID text.
pub uninterp spec fn uuid_parsed(s: Seq<char>) -> Option<u128>;

/// The value that parsing `s` as a UUID gives: canonical text reads back as the
/// value it was written from; any other text gives what the parser decides.
pub open spec fn parsed_uuid(s: Seq<char>) -> Option<u128> {
    if exists|v: u128| uuid_text(v) == s {
        Some(choose|v: u128| uuid_text(v) == s)
    } else {
        uuid_parsed(s)
    }
}

/// Relies on `uuid::Uuid`'s `Display`, which writes the big-endian bytes of the
/// value as lower-case hyphenated hex.
#[verifier::external_body]
fn uuid_display(value: u128) -> (r: String)
    ensures
        r@ == uuid_text(value),
{
    uuid::Uuid::from_u128(value).to_string()
}

/// Relies on `uuid::Uuid::parse_str`, documented to read back every format the
/// crate writes, the hyphenated one among them.
#[verifier::external_body]
fn uuid_parse(s: &str) -> (r: Option<u128>)
    ensures
        (exists|v: u128| uuid_text(v) == s@) ==> r == Some(choose|v: u128| uuid_text(v) == s@),
        !(exists|v: u128| uuid_text(v) == s@) ==> r == uuid_parsed(s@),
{
    match uuid::Uuid::parse_str(s) {
        Ok(u) => Some(u.as_u128()),
        Err(_) => None,
    }
}

/// Sixteen to the power `n`.
pub open spec fn pow16(n: nat) -> nat
    decreases n,
{
    if n == 0 {
        1
    } else {
        16 * pow16((n - 1) as nat)
    }
}

proof fn lemma_hex_digits_len(v: nat, n: nat)
    ensures
        hex_digits(v, n).len() == n,
    decreases n,
{
    if n > 0 {
        lemma_hex_digits_len(v / 16, (n - 1) as nat);
    }
}

proof fn lemma_hex_digits_injective(v: nat, w: nat, n: nat)
    requires
        v < pow16(n),
        w < pow16(n),
        hex_digits(v, n) == hex_digits(w, n),
    ensures
        v == w,
    decreases n,
{
    if n > 0 {
        let p = pow16((n - 1) as nat);
        let hv = hex_digits(v / 16, (n - 1) as nat);
        let hw = hex_digits(w / 16, (n - 1) as nat);
        assert(hex_digits(v, n).last() == hex_digit(v % 16));
        assert(hex_digits(w, n).last() == hex_digit(w % 16));
        assert(v % 16 == w % 16);
        assert(hv =~= hex_digits(v, n).drop_last());
        assert(hw =~= hex_digits(w, n).drop_last());
        assert(v / 16 < p) by (nonlinear_arith)
            requires
                v < 16 * p,
        ;
        assert(w / 16 < p) by (nonlinear_arith)
            requires
                w < 16 * p,
        ;
        lemma_hex_digits_injective(v / 16, w / 16, (n - 1) as nat);
    }
}

/// Different values have different canonical text.
pub proof fn lemma_uuid_text_injective(v: u128, w: u128)
    requires
        uuid_text(v) == uuid_text(w),
    ensures
        v == w,
{
    let hv = hex_digits(v as nat, 32);
    let hw = hex_digits(w as nat, 32);
    lemma_hex_digits_len(v as nat, 32);
    lemma_hex_digits_len(w as nat, 32);
    let tv = uuid_text(v);
    let tw = uuid_text(w);
    assert forall|k: int| 0 <= k < 32 implies hv[k] == hw[k] by {
        let j = if k < 8 {
            k
        } else if k < 12 {
            k + 1
        } else if k < 16 {
            k + 2
        } else if k < 20 {
            k + 3
        } else {
            k + 4
        };
        assert(tv[j] == hv[k]);
        assert(tw[j] == hw[k]);
    }
    assert(hv =~= hw);
    assert(pow16(32) == 0x1_0000_0000_0000_0000_0000_0000_0000_0000nat) by {
        reveal_with_fuel(pow16, 33);
    }
    lemma_hex_digits_injective(v as nat, w as nat, 32);
}

/// Reading back an identity's canonical text gives the identity.
pub proof fn lemma_uuid_text_round_trip(v: u128)
    ensures
        parsed_uuid(uuid_text(v)) == Some(v),
{
    let s = uuid_text(v);
    assert(exists|x: u128| uuid_text(x) == s);
    let c = choose|x: u128| uuid_text(x) == s;
    lemma_uuid_text_injective(c, v);
}

impl Identity {
    /// The identity's canonical text, as carried in a token's subject.
    pub fn to_text(&self) -> (r: String)
        ensures
            r@ == uuid_text(self.value),
    {
        uuid_display(self.value)
    }

    /// The identity written in `s`, or `None` when `s` is not UUID text.
    pub fn parse(s: &str) -> (r: Option<Identity>)
        ensures
            match parsed_uuid(s@) {
                Some(v) => r == Some(Identity { value: v }),
                None => r is None,
            },
    {
        match uuid_parse(s) {
            Some(v) => Some(Identity { value: v }),
            None => None,
        }
    }
}

} // verus!
