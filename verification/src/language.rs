//! Language tags similar to IETF BCP 47, such as `en-US`.
use vstd::prelude::*;
use vstd::string::StringSliceAdditionalSpecFns;

verus! {

/// Language tags similar to IETF BCP 47 (e.g. en-US)
///
/// For now they are defined to only support
///
/// * two character language code (e.g., en for English, zh for Chinese, es for Spanish) — based on
///   ISO 639-1
/// * '-' hyphen character
/// * two character Region (or country) code (e.g., US for United States, CN for China, ES for
///   Spain) — based on ISO 3166-1 alpha-2
///
/// The language code is kept in lower case and the region code in upper case.
#[derive(Debug, Clone, Copy, Eq, PartialOrd, Ord, Hash)]
pub struct LanguageTag {
    tag: [u8; 5],
}

/// Failed to parse a [`LanguageTag`] from a string.
#[derive(Debug, Clone, Copy, PartialEq, Eq, Structural)]
pub struct LanguageTagParseError;

/// `b` is an ASCII letter.
pub open spec fn is_ascii_letter(b: u8) -> bool {
    (65 <= b <= 90) || (97 <= b <= 122)
}

/// `b` in lower case, when it is an upper case ASCII letter.
pub open spec fn ascii_lower(b: u8) -> u8 {
    if 65 <= b <= 90 {
        (b + 32) as u8
    } else {
        b
    }
}

/// `b` in upper case, when it is a lower case ASCII letter.
pub open spec fn ascii_upper(b: u8) -> u8 {
    if 97 <= b <= 122 {
        (b - 32) as u8
    } else {
        b
    }
}

/// The tags accepted: five bytes, two ASCII letters, `-`, two ASCII letters.
pub open spec fn is_valid_tag(bytes: Seq<u8>) -> bool {
    &&& bytes.len() == 5
    &&& is_ascii_letter(bytes[0])
    &&& is_ascii_letter(bytes[1])
    &&& bytes[2] == 45
    &&& is_ascii_letter(bytes[3])
    &&& is_ascii_letter(bytes[4])
}

/// A valid tag with its language code in lower case and its region code in upper case.
pub open spec fn normalized_tag(bytes: Seq<u8>) -> Seq<u8> {
    seq![
        ascii_lower(bytes[0]),
        ascii_lower(bytes[1]),
        bytes[2],
        ascii_upper(bytes[3]),
        ascii_upper(bytes[4]),
    ]
}

fn is_letter(b: u8) -> (r: bool)
    ensures
        r == is_ascii_letter(b),
{
    (65 <= b && b <= 90) || (97 <= b && b <= 122)
}

fn to_lower(b: u8) -> (r: u8)
    ensures
        r == ascii_lower(b),
{
    if 65 <= b && b <= 90 {
        b + 32
    } else {
        b
    }
}

fn to_upper(b: u8) -> (r: u8)
    ensures
        r == ascii_upper(b),
{
    if 97 <= b && b <= 122 {
        b - 32
    } else {
        b
    }
}

/// The characters of the ASCII `bytes`, as `String::from_utf8_lossy` decodes them: ASCII bytes
/// are valid UTF-8, one character each.
#[verifier::external_body]
fn ascii_to_string(bytes: &[u8]) -> (s: String)
    requires
        forall|i: int| 0 <= i < bytes.len() ==> #[trigger] bytes[i] < 128,
    ensures
        s@ == bytes@.map_values(|b: u8| b as char),
{
    String::from_utf8_lossy(bytes).into_owned()
}

impl View for LanguageTag {
    type V = Seq<u8>;

    /// The five bytes of the tag.
    closed spec fn view(&self) -> Seq<u8> {
        self.tag@
    }
}

impl LanguageTag {
    #[verifier::type_invariant]
    spec fn wf(self) -> bool {
        is_valid_tag(self.tag@) && normalized_tag(self.tag@) == self.tag@
    }

    /// Create a [`LanguageTag`] from the content of `tag`, putting the language code in lower case
    /// and the region code in upper case.
    ///
    /// Returns `None` when `tag` does not have a length of 5 bytes, with ASCII letters at the
    /// first, second, fourth and fifth position and a '-' at the third. (On byte strings of length
    /// 5 this is the same as checking the characters: any non-ASCII character holds a byte that is
    /// no ASCII letter.)
    pub fn new(tag: &str) -> (r: Option<LanguageTag>)
        ensures
            r is Some <==> is_valid_tag(tag.spec_bytes()),
            r matches Some(t) ==> t@ == normalized_tag(tag.spec_bytes()),
    {
        let bytes = tag.as_bytes();
        if bytes.len() != 5 {
            return None;
        }
        if !(is_letter(bytes[0]) && is_letter(bytes[1]) && is_letter(bytes[3]) && is_letter(
            bytes[4],
        )) {
            return None;
        }
        if bytes[2] != 45u8 {
            return None;
        }
        let t = LanguageTag {
            tag: [
                to_lower(bytes[0]),
                to_lower(bytes[1]),
                bytes[2],
                to_upper(bytes[3]),
                to_upper(bytes[4]),
            ],
        };
        assert(t.tag@ =~= normalized_tag(tag.spec_bytes()));
        assert(normalized_tag(t.tag@) =~= t.tag@);
        Some(t)
    }

    /// Returns the en-US [`LanguageTag`].
    #[must_use]
    pub fn english() -> (t: Self)
        ensures
            t@ == seq![101u8, 110u8, 45u8, 85u8, 83u8],
    {
        let t = LanguageTag { tag: [101u8, 110u8, 45u8, 85u8, 83u8] };
        assert(t.tag@ =~= seq![101u8, 110u8, 45u8, 85u8, 83u8]);
        assert(normalized_tag(t.tag@) =~= t.tag@);
        t
    }

    /// Returns the pt-BR [`LanguageTag`].
    #[must_use]
    pub fn portuguese() -> (t: Self)
        ensures
            t@ == seq![112u8, 116u8, 45u8, 66u8, 82u8],
    {
        let t = LanguageTag { tag: [112u8, 116u8, 45u8, 66u8, 82u8] };
        assert(t.tag@ =~= seq![112u8, 116u8, 45u8, 66u8, 82u8]);
        assert(normalized_tag(t.tag@) =~= t.tag@);
        t
    }

    /// The five bytes of the tag, such as `en-US`.
    #[must_use]
    pub fn as_bytes(&self) -> (b: [u8; 5])
        ensures
            b@ == self@,
            is_valid_tag(b@),
            normalized_tag(b@) == b@,
    {
        proof {
            use_type_invariant(self);
        }
        self.tag
    }

    /// The tag as text, such as `en-US`.
    #[must_use]
    pub fn as_string(&self) -> (s: String)
        ensures
            s@ == self@.map_values(|b: u8| b as char),
    {
        proof {
            use_type_invariant(self);
        }
        let bytes = self.tag;
        ascii_to_string(&bytes)
    }
}

impl PartialEq for LanguageTag {
    fn eq(&self, other: &Self) -> (r: bool) {
        let r = self.tag[0] == other.tag[0] && self.tag[1] == other.tag[1] && self.tag[2]
            == other.tag[2] && self.tag[3] == other.tag[3] && self.tag[4] == other.tag[4];
        proof {
            if r {
                assert(self.tag@ =~= other.tag@);
            }
        }
        r
    }
}

impl vstd::std_specs::cmp::PartialEqSpecImpl for LanguageTag {
    open spec fn obeys_eq_spec() -> bool {
        true
    }

    open spec fn eq_spec(&self, other: &Self) -> bool {
        self@ == other@
    }
}

impl core::str::FromStr for LanguageTag {
    type Err = LanguageTagParseError;

    /// The tag of `s`, as [`LanguageTag::new`] makes it, or [`LanguageTagParseError`] when `s`
    /// is no valid tag.
    fn from_str(s: &str) -> (r: Result<Self, Self::Err>)
        ensures
            r is Ok <==> is_valid_tag(s.spec_bytes()),
            r matches Ok(t) ==> t@ == normalized_tag(s.spec_bytes()),
    {
        match LanguageTag::new(s) {
            Some(t) => Ok(t),
            None => Err(LanguageTagParseError),
        }
    }
}

/// Normalizing twice changes nothing more: a tag made by [`LanguageTag::new`] is valid and parses
/// back to itself.
pub proof fn lemma_normalized_is_stable(bytes: Seq<u8>)
    requires
        is_valid_tag(bytes),
    ensures
        is_valid_tag(normalized_tag(bytes)),
        normalized_tag(normalized_tag(bytes)) == normalized_tag(bytes),
{
    assert(normalized_tag(normalized_tag(bytes)) =~= normalized_tag(bytes));
}

/// Two tags that differ only in the case of their letters normalize to the same tag.
pub proof fn lemma_case_insensitive(a: Seq<u8>, b: Seq<u8>)
    requires
        is_valid_tag(a),
        is_valid_tag(b),
        forall|i: int| 0 <= i < 5 ==> #[trigger] ascii_lower(a[i]) == ascii_lower(b[i]),
    ensures
        normalized_tag(a) == normalized_tag(b),
{
    assert(ascii_upper(a[3]) == ascii_upper(b[3])) by {
        assert(ascii_lower(a[3]) == ascii_lower(b[3]));
    }
    assert(ascii_upper(a[4]) == ascii_upper(b[4])) by {
        assert(ascii_lower(a[4]) == ascii_lower(b[4]));
    }
    assert(ascii_lower(a[2]) == ascii_lower(b[2]));
    assert(normalized_tag(a) =~= normalized_tag(b));
}

/// The byte of the `k`-th letter of the Latin alphabet (`k` from 0 for A to 25 for Z) in ASCII:
/// `A` is 65 and `a` is 97, and the letters follow each other.
pub open spec fn latin_letter(k: int, upper: bool) -> u8 {
    if upper {
        (65 + k) as u8
    } else {
        (97 + k) as u8
    }
}

/// Every tag made of two letters of the Latin alphabet (in either case), a hyphen and two more
/// letters is valid, and it normalizes to its language letters in lower case and its region
/// letters in upper case: `zh-cn`, `ZH-CN` and `zH-Cn` all give `zh-CN`.
pub proof fn lemma_letter_tags(
    k0: int,
    u0: bool,
    k1: int,
    u1: bool,
    k3: int,
    u3: bool,
    k4: int,
    u4: bool,
)
    requires
        0 <= k0 < 26,
        0 <= k1 < 26,
        0 <= k3 < 26,
        0 <= k4 < 26,
    ensures
        is_valid_tag(
            seq![latin_letter(k0, u0), latin_letter(k1, u1), 45u8, latin_letter(k3, u3), latin_letter(k4, u4)],
        ),
        normalized_tag(
            seq![latin_letter(k0, u0), latin_letter(k1, u1), 45u8, latin_letter(k3, u3), latin_letter(k4, u4)],
        ) == seq![
            latin_letter(k0, false),
            latin_letter(k1, false),
            45u8,
            latin_letter(k3, true),
            latin_letter(k4, true),
        ],
{
    let t = seq![latin_letter(k0, u0), latin_letter(k1, u1), 45u8, latin_letter(k3, u3), latin_letter(k4, u4)];
    assert(t[0] == latin_letter(k0, u0) && t[1] == latin_letter(k1, u1) && t[2] == 45u8);
    assert(t[3] == latin_letter(k3, u3) && t[4] == latin_letter(k4, u4));
    assert(normalized_tag(t) =~= seq![
        latin_letter(k0, false),
        latin_letter(k1, false),
        45u8,
        latin_letter(k3, true),
        latin_letter(k4, true),
    ]);
}

/// Whether `b` is one of the 52 Latin letters, in either case.
pub open spec fn is_latin_letter(b: u8) -> bool {
    exists|k: int, upper: bool| 0 <= k < 26 && #[trigger] latin_letter(k, upper) == b
}

/// A valid tag is nothing but two Latin letters, a hyphen and two Latin letters: every other byte
/// at a letter position is refused.
pub proof fn lemma_valid_tags_are_letters(bytes: Seq<u8>)
    requires
        is_valid_tag(bytes),
    ensures
        bytes.len() == 5,
        bytes[2] == 45,
        is_latin_letter(bytes[0]),
        is_latin_letter(bytes[1]),
        is_latin_letter(bytes[3]),
        is_latin_letter(bytes[4]),
{
    assert forall|b: u8| is_ascii_letter(b) implies is_latin_letter(b) by {
        if 65 <= b <= 90 {
            assert(latin_letter(b - 65, true) == b);
        } else {
            assert(latin_letter(b - 97, false) == b);
        }
    }
}

} // verus!
