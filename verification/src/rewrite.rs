//! The rewrite rule: one fixed source prefix, one fixed destination prefix.

use vstd::prelude::*;
use vstd::string::*;

verus! {

/// Paths that begin with this text are redirected.
pub const SOURCE_PREFIX: &'static str = "/home/optoforce/newSRC/lib/fonts";

/// What the source prefix is replaced with.
pub const DESTINATION_PREFIX: &'static str = "/usr/share/fonts/X11/Type1";

/// The source prefix as a sequence of characters.
pub open spec fn source_prefix() -> Seq<char> {
    SOURCE_PREFIX@
}

/// The destination prefix as a sequence of characters.
pub open spec fn destination_prefix() -> Seq<char> {
    DESTINATION_PREFIX@
}

/// `path` begins with the source prefix, character for character.
pub open spec fn matches_rule(path: Seq<char>) -> bool {
    source_prefix().is_prefix_of(path)
}

/// The path that the rule turns `path` into.
pub open spec fn redirected(path: Seq<char>) -> Seq<char> {
    if matches_rule(path) {
        destination_prefix() + path.skip(source_prefix().len() as int)
    } else {
        path
    }
}

/// Tells whether `path` begins with the source prefix.
pub fn has_source_prefix(path: &str) -> (hit: bool)
    ensures
        hit == matches_rule(path@),
{
    let prefix: &str = SOURCE_PREFIX;
    let n: usize = prefix.unicode_len();
    if path.unicode_len() < n {
        return false;
    }
    let mut i: usize = 0;
    while i < n
        invariant
            i <= n,
            n == prefix@.len(),
            prefix@ == source_prefix(),
            n <= path@.len(),
            forall|k: int| 0 <= k < i ==> path@[k] == prefix@[k],
        decreases n - i,
    {
        if path.get_char(i) != prefix.get_char(i) {
            return false;
        }
        i += 1;
    }
    assert(prefix@ =~= path@.subrange(0, n as int));
    true
}

/// Applies the rewrite rule to `path`.
pub fn redirect(path: &str) -> (used: String)
    ensures
        used@ == redirected(path@),
{
    if has_source_prefix(path) {
        let skip: usize = SOURCE_PREFIX.unicode_len();
        let rest: &str = path.substring_char(skip, path.unicode_len());
        String::from_str(DESTINATION_PREFIX).concat(rest)
    } else {
        String::from_str(path)
    }
}

/// A path that does not begin with the source prefix is left as it is.
pub proof fn lemma_unmatched_is_unchanged(path: Seq<char>)
    requires
        !matches_rule(path),
    ensures
        redirected(path) == path,
{
}

/// A path that begins with the source prefix comes out as the destination
/// prefix followed by everything that stood after the source prefix.
pub proof fn lemma_matched_is_replaced(path: Seq<char>)
    requires
        matches_rule(path),
    ensures
        redirected(path) == destination_prefix() + path.subrange(
            source_prefix().len() as int,
            path.len() as int,
        ),
        path == source_prefix() + path.subrange(source_prefix().len() as int, path.len() as int),
{
    let n = source_prefix().len() as int;
    assert(path =~= source_prefix() + path.subrange(n, path.len() as int));
}

/// The lengths of the two prefixes, in characters.
pub proof fn lemma_prefix_lengths()
    ensures
        source_prefix().len() == 32,
        destination_prefix().len() == 26,
{
    reveal_strlit("/home/optoforce/newSRC/lib/fonts");
    reveal_strlit("/usr/share/fonts/X11/Type1");
}

/// The rule changes the length of a matching path by the difference of the
/// two prefix lengths, and the length of any other path not at all.
pub proof fn lemma_redirected_len(path: Seq<char>)
    ensures
        matches_rule(path) ==> redirected(path).len() == path.len() - 32 + 26,
        !matches_rule(path) ==> redirected(path).len() == path.len(),
{
    lemma_prefix_lengths();
}

/// Nothing that the rule gives back begins with the source prefix: the two
/// prefixes part ways at their second character.
pub proof fn lemma_redirected_never_matches(path: Seq<char>)
    requires
        matches_rule(path),
    ensures
        !matches_rule(redirected(path)),
{
    reveal_strlit("/home/optoforce/newSRC/lib/fonts");
    reveal_strlit("/usr/share/fonts/X11/Type1");
    let out = redirected(path);
    assert(out[1] == destination_prefix()[1]);
    if matches_rule(out) {
        assert(out.subrange(0, 32)[1] == source_prefix()[1]);
    }
}

/// Applying the rule twice gives what applying it once gives.
pub proof fn lemma_redirect_idempotent(path: Seq<char>)
    ensures
        redirected(redirected(path)) == redirected(path),
{
    if matches_rule(path) {
        lemma_redirected_never_matches(path);
    }
}

} // verus!
