//! Synthetic image names of anonymous artifacts and the structural filters that
//! recognize them.
use crate::image_ref::{spec_parse_reference, ImageRef, ReferenceError};
use crate::transport::chars_of;
use vstd::prelude::*;
use vstd::string::StringExecFns;

verus! {

/// Repository suffix shared by every anonymous artifact name.
pub const ANONYMOUS_ARTIFACT_REF_NAME_SUFFIX: &'static str = ".ommx.local/anonymous";

/// Number of registry-id characters used as the host of an anonymous name.
pub const ANONYMOUS_REGISTRY_ID_HOST_LEN: usize = 8;

pub open spec fn is_lower_hex(c: char) -> bool {
    ('0' <= c && c <= '9') || ('a' <= c && c <= 'f')
}

pub open spec fn all_lower_hex(s: Seq<char>) -> bool {
    forall|i: int| 0 <= i < s.len() ==> is_lower_hex(#[trigger] s[i])
}

/// Whether `name` is `<8 lowercase hex chars>.ommx.local/anonymous`.
pub open spec fn anonymous_ref_name(name: Seq<char>) -> bool {
    let suffix = ".ommx.local/anonymous"@;
    &&& name.len() == 8 + suffix.len()
    &&& name.subrange(8, name.len() as int) == suffix
    &&& all_lower_hex(name.subrange(0, 8))
}

/// Whether `tag` has the `YYYYMMDDTHHMMSS` shape: 15 characters, ASCII digits
/// except a `T` at position 8.
pub open spec fn anonymous_tag(tag: Seq<char>) -> bool {
    &&& tag.len() == 15
    &&& forall|i: int| 0 <= i < 15 ==> if i == 8 { #[trigger] tag[i] == 'T' } else { '0' <= tag[i] && tag[i] <= '9' }
}

/// Whether every character of `s` is a lowercase hexadecimal digit.
fn check_lower_hex(s: &Vec<char>, from: usize, to: usize) -> (r: bool)
    requires
        from <= to <= s@.len(),
    ensures
        r == all_lower_hex(s@.subrange(from as int, to as int)),
{
    let mut i: usize = from;
    while i < to
        invariant
            from <= i <= to <= s@.len(),
            forall|j: int| from <= j < i ==> is_lower_hex(#[trigger] s@[j]),
        decreases to - i,
    {
        let c = s[i];
        if !(('0' <= c && c <= '9') || ('a' <= c && c <= 'f')) {
            proof {
                assert(s@.subrange(from as int, to as int)[i - from] == c);
            }
            return false;
        }
        i = i + 1;
    }
    proof {
        assert forall|j: int| 0 <= j < to - from implies is_lower_hex(#[trigger] s@.subrange(from as int, to as int)[j]) by {
            assert(is_lower_hex(s@[from + j]));
        }
    }
    true
}

/// True iff `name` (the `host/path` part of a reference) is the repository an
/// anonymous artifact is stored under: an 8-hex host followed by
/// `.ommx.local/anonymous`.
pub fn is_anonymous_artifact_ref_name(name: &str) -> (r: bool)
    ensures
        r == anonymous_ref_name(name@),
{
    proof {
        reveal_strlit(".ommx.local/anonymous");
    }
    let chars = chars_of(name);
    let suffix = chars_of(".ommx.local/anonymous");
    let n = chars.len();
    let m = suffix.len();
    if n != 8 + m {
        return false;
    }
    let mut i: usize = 0;
    while i < m
        invariant
            n == chars@.len(),
            chars@ == name@,
            suffix@ == ".ommx.local/anonymous"@,
            m == suffix@.len(),
            n == 8 + m,
            i <= m,
            forall|j: int| 0 <= j < i ==> chars@[8 + j] == suffix@[j],
        decreases m - i,
    {
        if chars[8 + i] != suffix[i] {
            proof {
                assert(chars@.subrange(8, n as int)[i as int] != suffix@[i as int]);
            }
            return false;
        }
        i = i + 1;
    }
    assert(chars@.subrange(8, n as int) =~= suffix@);
    check_lower_hex(&chars, 0, 8)
}

/// True iff `tag` has the `YYYYMMDDTHHMMSS` shape of an anonymous artifact tag.
pub fn is_anonymous_artifact_tag(tag: &str) -> (r: bool)
    ensures
        r == anonymous_tag(tag@),
{
    let chars = chars_of(tag);
    if chars.len() != 15 {
        return false;
    }
    let mut i: usize = 0;
    while i < 15
        invariant
            chars@.len() == 15,
            chars@ == tag@,
            i <= 15,
            forall|j: int| 0 <= j < i ==> if j == 8 { #[trigger] chars@[j] == 'T' } else { '0' <= chars@[j] && chars@[j] <= '9' },
        decreases 15 - i,
    {
        let c = chars[i];
        let ok = if i == 8 { c == 'T' } else { '0' <= c && c <= '9' };
        if !ok {
            proof {
                assert(!anonymous_tag(tag@)) by {
                    assert(chars@[i as int] == c);
                }
            }
            return false;
        }
        i = i + 1;
    }
    true
}

/// Why no anonymous image name could be built.
#[derive(Clone, Debug, PartialEq)]
pub enum AnonymousNameError {
    /// The registry id does not start with 8 lowercase hex characters; carries
    /// the (at most 8 character) prefix that was read.
    InvalidRegistryId(String),
    /// The synthesized name is not a valid reference.
    Reference(ReferenceError),
}

/// The first `min(8, len)` characters of the registry id.
pub open spec fn registry_id_prefix(id: Seq<char>) -> Seq<char> {
    if id.len() < 8 {
        id
    } else {
        id.subrange(0, 8)
    }
}

/// The anonymous image name text for a registry-id prefix and a timestamp tag.
pub open spec fn anonymous_name_text(prefix: Seq<char>, stamp: Seq<char>) -> Seq<char> {
    prefix + ".ommx.local/anonymous:"@ + stamp
}

/// The text of every synthesized name is recognized by the filters: its part
/// before the last `:` is an anonymous ref name, and what follows is the
/// stamp, which the tag filter accepts whenever the stamp has the
/// `YYYYMMDDTHHMMSS` shape.
pub proof fn lemma_synthesized_text_is_recognized(prefix: Seq<char>, stamp: Seq<char>)
    requires
        prefix.len() == 8,
        all_lower_hex(prefix),
        anonymous_tag(stamp),
    ensures
        anonymous_name_text(prefix, stamp) == (prefix + ".ommx.local/anonymous"@).push(':') + stamp,
        anonymous_ref_name(prefix + ".ommx.local/anonymous"@),
        !(prefix + ".ommx.local/anonymous"@).contains(':'),
        !stamp.contains(':'),
{
    reveal_strlit(".ommx.local/anonymous:");
    reveal_strlit(".ommx.local/anonymous");
    let name = prefix + ".ommx.local/anonymous"@;
    assert(".ommx.local/anonymous:"@ =~= ".ommx.local/anonymous"@.push(':'));
    assert(anonymous_name_text(prefix, stamp) =~= name.push(':') + stamp);
    assert(name.subrange(8, name.len() as int) =~= ".ommx.local/anonymous"@);
    assert(name.subrange(0, 8) =~= prefix);
    assert(!name.contains(':')) by {
        if name.contains(':') {
            let i = choose|i: int| 0 <= i < name.len() && name[i] == ':';
            if i < 8 {
                assert(is_lower_hex(prefix[i]));
            }
        }
    }
    assert(!stamp.contains(':')) by {
        if stamp.contains(':') {
            let i = choose|i: int| 0 <= i < stamp.len() && stamp[i] == ':';
            assert(i == 8 ==> stamp[i] == 'T');
        }
    }
}

/// Builds the synthetic image name `<registry-id8>.ommx.local/anonymous:<stamp>`
/// of an anonymous artifact. The registry id must start with 8 lowercase hex
/// characters; only those 8 are used.
pub fn anonymous_artifact_image_name_at(registry_id: &str, stamp: &str) -> (r: Result<ImageRef, AnonymousNameError>)
    ensures
        ({
            let prefix = registry_id_prefix(registry_id@);
            if prefix.len() == 8 && all_lower_hex(prefix) {
                match spec_parse_reference(anonymous_name_text(prefix, stamp@)) {
                    Ok(v) => r matches Ok(i) && i@ == v,
                    Err(e) => r == Err::<ImageRef, AnonymousNameError>(AnonymousNameError::Reference(e)),
                }
            } else {
                r matches Err(AnonymousNameError::InvalidRegistryId(p)) && p@ == prefix
            }
        }),
{
    let chars = chars_of(registry_id);
    let take: usize = if chars.len() < 8 { chars.len() } else { 8 };
    let mut prefix = String::new();
    let mut i: usize = 0;
    while i < take
        invariant
            take <= chars@.len(),
            i <= take,
            prefix@ == chars@.subrange(0, i as int),
        decreases take - i,
    {
        push_char(&mut prefix, chars[i]);
        i = i + 1;
        assert(prefix@ =~= chars@.subrange(0, i as int));
    }
    proof {
        if chars@.len() < 8 {
            assert(chars@.subrange(0, take as int) =~= chars@);
        }
        assert(prefix@ == registry_id_prefix(registry_id@));
    }
    if take != 8 || !check_lower_hex(&chars, 0, 8) {
        return Err(AnonymousNameError::InvalidRegistryId(prefix));
    }
    proof {
        assert(chars@.subrange(0, 8) =~= prefix@);
    }
    let mut text = prefix;
    text.append(".ommx.local/anonymous:");
    text.append(stamp);
    match ImageRef::parse(text.as_str()) {
        Ok(image) => Ok(image),
        Err(e) => Err(AnonymousNameError::Reference(e)),
    }
}

/// Appends one character to a string (`String::push`).
#[verifier::external_body]
pub(crate) fn push_char(s: &mut String, c: char)
    ensures
        final(s)@ == old(s)@.push(c),
{
    s.push(c);
}

/// The caller's local time as `YYYYMMDDTHHMMSS` (`chrono::Local::now`). It
/// depends on the clock and the machine's time zone, so nothing is promised of
/// the text.
#[verifier::external_body]
fn local_timestamp() -> String {
    chrono::Local::now().format("%Y%m%dT%H%M%S").to_string()
}

/// Builds the synthetic image name of an anonymous artifact stamped with the
/// current local time; see [`anonymous_artifact_image_name_at`].
pub fn anonymous_artifact_image_name(registry_id: &str) -> (r: Result<ImageRef, AnonymousNameError>)
    ensures
        ({
            let prefix = registry_id_prefix(registry_id@);
            &&& !(prefix.len() == 8 && all_lower_hex(prefix)) ==> (r matches Err(AnonymousNameError::InvalidRegistryId(p)) && p@ == prefix)
            &&& (prefix.len() == 8 && all_lower_hex(prefix)) ==> exists|stamp: Seq<char>|
                match #[trigger] spec_parse_reference(anonymous_name_text(prefix, stamp)) {
                    Ok(v) => r matches Ok(i) && i@ == v,
                    Err(e) => r == Err::<ImageRef, AnonymousNameError>(AnonymousNameError::Reference(e)),
                }
        }),
{
    let stamp = local_timestamp();
    let r = anonymous_artifact_image_name_at(registry_id, stamp.as_str());
    proof {
        let prefix = registry_id_prefix(registry_id@);
        if prefix.len() == 8 && all_lower_hex(prefix) {
            assert(match spec_parse_reference(anonymous_name_text(prefix, stamp@)) {
                Ok(v) => r matches Ok(i) && i@ == v,
                Err(e) => r == Err::<ImageRef, AnonymousNameError>(AnonymousNameError::Reference(e)),
            });
        }
    }
    r
}

} // verus!
