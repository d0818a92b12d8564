//! Container identifier formation.
//!
//! A container identifier is the workload-supplied name, a hyphen, and a
//! freshly generated 36-character suffix. The suffix has a fixed length, so
//! identifiers built from distinct suffixes are themselves distinct.

use vstd::prelude::*;
use vstd::string::StringExecFns;

verus! {

/// Relies on `uuid::Uuid::new_v4` and its `Display` form: a freshly drawn
/// random identifier rendered in the hyphenated form, which is always 36
/// ASCII characters. Nothing is promised about the value itself.
#[verifier::external_body]
fn new_uuid_string() -> (r: String)
    ensures
        r@.len() == 36,
{
    uuid::Uuid::new_v4().to_string()
}

/// Joins a name and a generated suffix into a container identifier.
pub fn make_container_id(name: &str, suffix: &str) -> (r: String)
    ensures
        r@ == name@ + "-"@ + suffix@,
{
    let r = name.to_owned().concat("-").concat(suffix);
    assert(r@ =~= name@ + "-"@ + suffix@);
    r
}

/// Generates a fresh container identifier `{name}-{suffix}` with a
/// 36-character generated suffix.
pub fn generate_container_id(name: &str) -> (r: String)
    ensures
        r@.len() == name@.len() + 37,
        r@.subrange(0, name@.len() as int) == name@,
        r@[name@.len() as int] == '-',
        exists|u: Seq<char>| u.len() == 36 && r@ == name@ + "-"@ + u,
{
    let suffix = new_uuid_string();
    let r = make_container_id(name, suffix.as_str());
    proof {
        reveal_strlit("-");
        assert(r@.subrange(0, name@.len() as int) =~= name@);
        assert(r@[name@.len() as int] == "-"@[0]);
        assert(suffix@.len() == 36 && r@ == name@ + "-"@ + suffix@);
    }
    r
}

/// Container identifiers built from distinct generated suffixes are
/// themselves distinct, whatever the names: the 36-character suffix pins the
/// identifier down. Identifier uniqueness thus rests exactly on the
/// generated suffixes never repeating.
pub proof fn lemma_distinct_suffixes_give_distinct_ids(
    n1: Seq<char>,
    u1: Seq<char>,
    n2: Seq<char>,
    u2: Seq<char>,
)
    requires
        u1.len() == 36,
        u2.len() == 36,
        u1 != u2,
    ensures
        n1 + "-"@ + u1 != n2 + "-"@ + u2,
{
    if n1 + "-"@ + u1 == n2 + "-"@ + u2 {
        lemma_container_id_injective(n1, u1, n2, u2);
    }
}

/// Identifier formation is injective in the suffix: two identifiers
/// `{name}-{suffix}` built with suffixes of one length are equal only if
/// both the names and the suffixes are equal.
pub proof fn lemma_container_id_injective(
    n1: Seq<char>,
    u1: Seq<char>,
    n2: Seq<char>,
    u2: Seq<char>,
)
    requires
        u1.len() == u2.len(),
        n1 + "-"@ + u1 == n2 + "-"@ + u2,
    ensures
        n1 == n2,
        u1 == u2,
{
    let s = n1 + "-"@ + u1;
    assert(s.len() == n1.len() + "-"@.len() + u1.len());
    assert(n1.len() == n2.len());
    assert(n1 =~= n2) by {
        assert(forall|i: int|
            0 <= i < n1.len() ==> n1[i] == s[i] && n2[i] == s[i]);
    }
    assert(u1 =~= u2) by {
        assert(forall|i: int|
            0 <= i < u1.len() ==> u1[i] == s[n1.len() + "-"@.len() + i] && u2[i] == s[n2.len()
                + "-"@.len() + i]);
    }
}

} // verus!
