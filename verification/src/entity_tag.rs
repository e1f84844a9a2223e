//! The entity-tag value type and its canonical hexadecimal rendering.

use vstd::prelude::*;
use vstd::string::StringExecFns;
use std::sync::Arc;

verus! {

/// Relies on `Arc::clone`: it hands out a new reference-counted handle to
/// the very same tag. Stored tags are shared this way instead of being
/// copied.
#[verifier::external_body]
pub(crate) fn clone_tag_handle(a: &Arc<EntityTag>) -> (r: Arc<EntityTag>)
    ensures
        r == *a,
{
    a.clone()
}

/// Mathematical model of an entity tag: a weakness flag and the characters
/// of its opaque payload.
pub struct TagModel {
    pub weak: bool,
    pub tag: Seq<char>,
}

/// The uppercase hexadecimal digit for a value below sixteen.
pub open spec fn hex_digit_char(d: nat) -> char {
    if d == 0 {
        '0'
    } else if d == 1 {
        '1'
    } else if d == 2 {
        '2'
    } else if d == 3 {
        '3'
    } else if d == 4 {
        '4'
    } else if d == 5 {
        '5'
    } else if d == 6 {
        '6'
    } else if d == 7 {
        '7'
    } else if d == 8 {
        '8'
    } else if d == 9 {
        '9'
    } else if d == 10 {
        'A'
    } else if d == 11 {
        'B'
    } else if d == 12 {
        'C'
    } else if d == 13 {
        'D'
    } else if d == 14 {
        'E'
    } else {
        'F'
    }
}

/// The canonical uppercase hexadecimal rendering of a number: no sign, no
/// leading zeros, a single `'0'` for zero. Distinct numbers always render
/// to distinct character sequences.
pub open spec fn hex_upper(n: nat) -> Seq<char>
    decreases n,
{
    if n < 16 {
        seq![hex_digit_char(n)]
    } else {
        hex_upper(n / 16) + seq![hex_digit_char(n % 16)]
    }
}

/// An opaque identifier for one version of a piece of content: a weakness
/// flag (weak tags assert content equivalence, not byte identity) and an
/// opaque string payload. Immutable once constructed.
pub struct EntityTag {
    weak: bool,
    tag: String,
}

impl View for EntityTag {
    type V = TagModel;

    closed spec fn view(&self) -> TagModel {
        TagModel { weak: self.weak, tag: self.tag@ }
    }
}

fn hex_digit_str(d: u64) -> (r: &'static str)
    requires
        d < 16,
    ensures
        r@ == seq![hex_digit_char(d as nat)],
{
    let r: &'static str = match d {
        0 => "0",
        1 => "1",
        2 => "2",
        3 => "3",
        4 => "4",
        5 => "5",
        6 => "6",
        7 => "7",
        8 => "8",
        9 => "9",
        10 => "A",
        11 => "B",
        12 => "C",
        13 => "D",
        14 => "E",
        _ => "F",
    };
    proof {
        reveal_strlit("0");
        reveal_strlit("1");
        reveal_strlit("2");
        reveal_strlit("3");
        reveal_strlit("4");
        reveal_strlit("5");
        reveal_strlit("6");
        reveal_strlit("7");
        reveal_strlit("8");
        reveal_strlit("9");
        reveal_strlit("A");
        reveal_strlit("B");
        reveal_strlit("C");
        reveal_strlit("D");
        reveal_strlit("E");
        reveal_strlit("F");
        assert(r@ =~= seq![hex_digit_char(d as nat)]);
    }
    r
}

/// Render a checksum as canonical uppercase hexadecimal.
fn to_hex_upper(n: u64) -> (r: String)
    ensures
        r@ == hex_upper(n as nat),
    decreases n,
{
    if n < 16 {
        hex_digit_str(n).to_owned()
    } else {
        let mut s = to_hex_upper(n / 16);
        s.append(hex_digit_str(n % 16));
        s
    }
}

/// The rendering is never empty.
proof fn lemma_hex_upper_len_pos(n: nat)
    ensures
        hex_upper(n).len() >= 1,
    decreases n,
{
    if n >= 16 {
        lemma_hex_upper_len_pos(n / 16);
    }
}

/// The canonical rendering never lets two different numbers collide due to
/// formatting: distinct checksums always render to distinct payloads.
pub proof fn lemma_hex_upper_injective(a: nat, b: nat)
    requires
        hex_upper(a) == hex_upper(b),
    ensures
        a == b,
    decreases a,
{
    lemma_hex_upper_len_pos(a);
    lemma_hex_upper_len_pos(b);
    if a < 16 && b < 16 {
        assert(hex_upper(a)[0] == hex_digit_char(a));
        assert(hex_upper(b)[0] == hex_digit_char(b));
    } else if a < 16 {
        lemma_hex_upper_len_pos(b / 16);
        assert(hex_upper(a).len() == 1);
        assert(hex_upper(b).len() == hex_upper(b / 16).len() + 1);
    } else if b < 16 {
        lemma_hex_upper_len_pos(a / 16);
        assert(hex_upper(b).len() == 1);
        assert(hex_upper(a).len() == hex_upper(a / 16).len() + 1);
    } else {
        let sa = hex_upper(a / 16);
        let sb = hex_upper(b / 16);
        let ta = hex_upper(a);
        let tb = hex_upper(b);
        assert(ta == sa + seq![hex_digit_char(a % 16)]);
        assert(tb == sb + seq![hex_digit_char(b % 16)]);
        assert(ta[ta.len() - 1] == hex_digit_char(a % 16));
        assert(tb[tb.len() - 1] == hex_digit_char(b % 16));
        assert(a % 16 == b % 16);
        assert(sa.len() == sb.len());
        assert forall|i: int| 0 <= i < sa.len() implies sa[i] == sb[i] by {
            assert(ta[i] == sa[i]);
            assert(tb[i] == sb[i]);
        }
        assert(sa =~= sb);
        lemma_hex_upper_injective(a / 16, b / 16);
        vstd::arithmetic::div_mod::lemma_fundamental_div_mod(a as int, 16);
        vstd::arithmetic::div_mod::lemma_fundamental_div_mod(b as int, 16);
    }
}

/// The tag model produced for a given checksum: always weak, with the
/// canonical hexadecimal rendering as its payload.
pub open spec fn tag_model_of_checksum(checksum: u64) -> TagModel {
    TagModel { weak: true, tag: hex_upper(checksum as nat) }
}

impl EntityTag {
    /// Construct a tag from a weakness flag and an opaque payload.
    pub fn new(weak: bool, tag: String) -> (r: EntityTag)
        ensures
            r@ == (TagModel { weak, tag: tag@ }),
    {
        EntityTag { weak, tag }
    }

    /// Construct the weak tag that fingerprints content with the given
    /// checksum: the canonical uppercase hexadecimal rendering of the
    /// checksum as payload.
    pub fn from_checksum(checksum: u64) -> (r: EntityTag)
        ensures
            r@ == tag_model_of_checksum(checksum),
    {
        EntityTag { weak: true, tag: to_hex_upper(checksum) }
    }

    /// Whether this tag asserts only content equivalence.
    pub fn is_weak(&self) -> (r: bool)
        ensures
            r == self@.weak,
    {
        self.weak
    }

    /// The opaque payload.
    pub fn tag_str(&self) -> (r: &str)
        ensures
            r@ == self@.tag,
    {
        self.tag.as_str()
    }

    /// Weak comparison: two tags denote equivalent content exactly when
    /// their payloads match, regardless of their weakness flags.
    pub fn weak_eq(&self, other: &EntityTag) -> (r: bool)
        ensures
            r == (self@.tag == other@.tag),
    {
        self.tag == other.tag
    }
}

} // verus!
