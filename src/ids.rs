//! Entity identifiers. An identifier is a twelve-byte object id, held here as the
//! big-endian integer that its bytes spell, so that it can be compared and ordered.

use vstd::prelude::*;

verus! {

/// One more than the largest value of a twelve-byte identifier (2^96).
pub const OBJECT_ID_LIMIT: u128 = 0x1_0000_0000_0000_0000_0000_0000;

/// Whether `c` is a hexadecimal digit, in either case.
pub open spec fn is_hex_digit(c: char) -> bool {
    ('0' <= c && c <= '9') || ('a' <= c && c <= 'f') || ('A' <= c && c <= 'F')
}

/// The value of one hexadecimal digit.
pub open spec fn hex_digit_value(c: char) -> nat {
    if '0' <= c && c <= '9' {
        (c as nat - '0' as nat) as nat
    } else if 'a' <= c && c <= 'f' {
        (c as nat - 'a' as nat + 10) as nat
    } else {
        (c as nat - 'A' as nat + 10) as nat
    }
}

/// The number that a string of hexadecimal digits spells, most significant first.
pub open spec fn hex_value(s: Seq<char>) -> nat
    decreases s.len(),
{
    if s.len() == 0 {
        0
    } else {
        hex_value(s.drop_last()) * 16 + hex_digit_value(s.last())
    }
}

/// Whether `s` is the text form of an identifier: exactly 24 hexadecimal digits.
pub open spec fn is_object_id_text(s: Seq<char>) -> bool {
    s.len() == 24 && forall|i: int| 0 <= i < 24 ==> is_hex_digit(#[trigger] s[i])
}

/// The lowercase hexadecimal digit for a value below 16.
pub open spec fn lower_hex_char(d: nat) -> char {
    if d < 10 {
        (d + '0' as nat) as char
    } else {
        (d - 10 + 'a' as nat) as char
    }
}

/// The last `n` hexadecimal digits of `v`, in lowercase, most significant first.
pub open spec fn lower_hex(v: nat, n: nat) -> Seq<char>
    decreases n,
{
    if n == 0 {
        Seq::empty()
    } else {
        lower_hex(v / 16, (n - 1) as nat).push(lower_hex_char(v % 16))
    }
}

/// Relies on bson's `ObjectId::new`: a fresh twelve-byte identifier, read as a big-endian
/// integer. Nothing is known of its value but its width. bson panics if the clock reads
/// before 1970 or after 2106.
#[verifier::external_body]
fn fresh_object_id() -> (r: u128)
    ensures
        r < OBJECT_ID_LIMIT,
{
    let mut wide = [0u8; 16];
    wide[4..].copy_from_slice(&bson::oid::ObjectId::new().bytes());
    u128::from_be_bytes(wide)
}

/// Relies on bson's `ObjectId::parse_str`: it accepts exactly 24 hexadecimal digits, of
/// either case, and reads them as twelve bytes, most significant first.
#[verifier::external_body]
fn parse_object_id(s: &str) -> (r: Option<u128>)
    ensures
        r.is_some() == is_object_id_text(s@),
        r matches Some(v) ==> v == hex_value(s@) && v < OBJECT_ID_LIMIT,
{
    match bson::oid::ObjectId::parse_str(s) {
        Ok(oid) => {
            let mut wide = [0u8; 16];
            wide[4..].copy_from_slice(&oid.bytes());
            Some(u128::from_be_bytes(wide))
        },
        Err(_) => None,
    }
}

/// Relies on bson's `ObjectId::to_hex`: the twelve bytes as 24 lowercase hexadecimal digits.
#[verifier::external_body]
fn object_id_hex(v: u128) -> (r: String)
    requires
        v < OBJECT_ID_LIMIT,
    ensures
        r@ == lower_hex(v as nat, 24),
{
    let wide = v.to_be_bytes();
    let mut bytes = [0u8; 12];
    bytes.copy_from_slice(&wide[4..]);
    bson::oid::ObjectId::from_bytes(bytes).to_hex()
}

/// Among the `n + 1` values `0..=n`, at least one is missing from `n` values: some value
/// in that range is free for a new identifier.
pub proof fn lemma_free_value_exists(vals: Seq<int>)
    ensures
        exists|k: int| 0 <= k <= vals.len() && !vals.contains(k),
{
    broadcast use vstd::seq_lib::seq_to_set_is_finite;

    if forall|k: int| 0 <= k <= vals.len() ==> vals.contains(k) {
        let range = vstd::set_lib::set_int_range(0, vals.len() as int + 1);
        vstd::set_lib::lemma_int_range(0, vals.len() as int + 1);
        vals.lemma_cardinality_of_set();
        assert(range.subset_of(vals.to_set()));
        vstd::set_lib::lemma_len_subset(range, vals.to_set());
    }
}

/// Text that is not an identifier was given where one was expected.
#[derive(Debug, Clone, Copy, PartialEq, Eq, Structural)]
pub struct InvalidIdFormat;

/// Identifies an article for its whole lifetime.
#[derive(Debug, Clone, Copy, PartialEq, Eq, Structural, Hash)]
pub struct ArticleId {
    /// The integer that the identifier's twelve bytes spell, most significant first.
    pub value: u128,
}

impl ArticleId {
    pub open spec fn wf(self) -> bool {
        self.value < OBJECT_ID_LIMIT
    }

    /// A fresh identifier.
    pub fn new() -> (r: ArticleId)
        ensures
            r.wf(),
    {
        ArticleId { value: fresh_object_id() }
    }

    /// Reads the 24-digit hexadecimal form of an identifier.
    pub fn parse_str(s: &str) -> (r: Result<ArticleId, InvalidIdFormat>)
        ensures
            r is Ok == is_object_id_text(s@),
            r matches Ok(id) ==> id.value == hex_value(s@) && id.wf(),
    {
        match parse_object_id(s) {
            Some(v) => Ok(ArticleId { value: v }),
            None => Err(InvalidIdFormat),
        }
    }

    /// The 24-digit lowercase hexadecimal form of the identifier.
    pub fn to_hex(&self) -> (r: String)
        requires
            self.wf(),
        ensures
            r@ == lower_hex(self.value as nat, 24),
    {
        object_id_hex(self.value)
    }
}

/// Identifies a user for its whole lifetime.
#[derive(Debug, Clone, Copy, PartialEq, Eq, Structural, Hash)]
pub struct UserId {
    /// The integer that the identifier's twelve bytes spell, most significant first.
    pub value: u128,
}

impl UserId {
    pub open spec fn wf(self) -> bool {
        self.value < OBJECT_ID_LIMIT
    }

    /// A fresh identifier.
    pub fn new() -> (r: UserId)
        ensures
            r.wf(),
    {
        UserId { value: fresh_object_id() }
    }

    /// Reads the 24-digit hexadecimal form of an identifier.
    pub fn parse_str(s: &str) -> (r: Result<UserId, InvalidIdFormat>)
        ensures
            r is Ok == is_object_id_text(s@),
            r matches Ok(id) ==> id.value == hex_value(s@) && id.wf(),
    {
        match parse_object_id(s) {
            Some(v) => Ok(UserId { value: v }),
            None => Err(InvalidIdFormat),
        }
    }

    /// The 24-digit lowercase hexadecimal form of the identifier.
    pub fn to_hex(&self) -> (r: String)
        requires
            self.wf(),
        ensures
            r@ == lower_hex(self.value as nat, 24),
    {
        object_id_hex(self.value)
    }
}

} // verus!
