use vstd::prelude::*;
use vstd::string::*;
use rand::distr::SampleString;

verus! {

/// Position of the last period among the first `n` characters of `name`, or -1
/// where there is none.
pub open spec fn last_dot_before(name: Seq<char>, n: int) -> int
    decreases n,
{
    if n <= 0 {
        -1
    } else if name[n - 1] == '.' {
        n - 1
    } else {
        last_dot_before(name, n - 1)
    }
}

/// The extension of a file name, as `Path::extension` reads it: what follows the
/// last period, provided that period is not the name's first character; the
/// name `..` has none.
pub open spec fn extension_of(name: Seq<char>) -> Option<Seq<char>> {
    let i = last_dot_before(name, name.len() as int);
    if name =~= seq!['.', '.'] || i <= 0 {
        None
    } else {
        Some(name.subrange(i + 1, name.len() as int))
    }
}

/// Returns the extension of the file name `name` (see [`extension_of`]).
pub fn extension(name: &str) -> (r: Option<String>)
    ensures
        match r {
            Some(e) => extension_of(name@) == Some(e@),
            None => extension_of(name@) is None,
        },
{
    let n = name.unicode_len();
    if n == 2 && name.get_char(0) == '.' && name.get_char(1) == '.' {
        assert(name@ =~= seq!['.', '.']);
        return None;
    }
    assert(!(name@ =~= seq!['.', '.'])) by {
        if name@ =~= seq!['.', '.'] {
            assert(name@[0] == '.' && name@[1] == '.');
        }
    }
    let mut i: usize = n;
    while i > 0
        invariant
            i <= n == name@.len(),
            last_dot_before(name@, i as int) == last_dot_before(name@, n as int),
            !(name@ =~= seq!['.', '.']),
        decreases i,
    {
        if name.get_char(i - 1) == '.' {
            if i - 1 == 0 {
                return None;
            }
            let e = name.substring_char(i, n);
            return Some(String::from_str(e));
        }
        i = i - 1;
    }
    None
}

/// What reading a file's tags gave.
pub enum TagTitle {
    /// The tags could not be read or parsed.
    Unreadable,
    /// The tags were read and hold no title.
    Untitled,
    /// The tags were read and hold this title.
    Title(String),
}

/// The title to name a file after: a title that is present and not empty.
pub open spec fn usable_title(tag: TagTitle) -> Option<Seq<char>> {
    match tag {
        TagTitle::Title(t) => if t@.len() > 0 { Some(t@) } else { None },
        _ => None,
    }
}

/// The name a file takes in the destination before collisions are considered.
/// A file with a usable title is named `<title>.<extension>`, the extension taken
/// from the original name (empty where it has none, which leaves a trailing
/// period). Every other file keeps its original name, extension included.
pub open spec fn destination_name_of(file_name: Seq<char>, tag: TagTitle) -> Seq<char> {
    match usable_title(tag) {
        Some(t) => t + seq!['.'] + match extension_of(file_name) {
            Some(e) => e,
            None => Seq::empty(),
        },
        None => file_name,
    }
}

/// Computes [`destination_name_of`] for a file called `file_name` whose tag
/// reading gave `tag`.
pub fn destination_name(file_name: &str, tag: &TagTitle) -> (r: String)
    ensures
        r@ == destination_name_of(file_name@, *tag),
{
    match tag {
        TagTitle::Title(t) => {
            if t.unicode_len() > 0 {
                let ext = match extension(file_name) {
                    Some(e) => e,
                    None => String::new(),
                };
                let dot = ".";
                proof {
                    reveal_strlit(".");
                }
                let mut r = t.clone();
                r.append(dot);
                r.append(ext.as_str());
                assert(r@ =~= destination_name_of(file_name@, *tag));
                r
            } else {
                String::from_str(file_name)
            }
        },
        _ => String::from_str(file_name),
    }
}

/// An ASCII letter or digit.
pub open spec fn is_alphanumeric(c: char) -> bool {
    ('A' <= c && c <= 'Z') || ('a' <= c && c <= 'z') || ('0' <= c && c <= '9')
}

/// Length of the random tag put before a name that is already taken.
pub const TAG_LEN: usize = 5;

/// A tag that may be put before a name that is already taken: five ASCII
/// letters or digits.
pub open spec fn is_collision_tag(t: Seq<char>) -> bool {
    t.len() == TAG_LEN && forall|i: int| 0 <= i < t.len() ==> is_alphanumeric(#[trigger] t[i])
}

/// `name` with `tag` and an underscore put before it.
pub open spec fn tagged_name_of(tag: Seq<char>, name: Seq<char>) -> Seq<char> {
    tag + seq!['_'] + name
}

/// Puts `tag` and an underscore before `name`.
pub fn tagged_name(tag: &str, name: &str) -> (r: String)
    ensures
        r@ == tagged_name_of(tag@, name@),
{
    let sep = "_";
    proof {
        reveal_strlit("_");
    }
    let mut r = String::from_str(tag);
    r.append(sep);
    r.append(name);
    assert(r@ =~= tagged_name_of(tag@, name@));
    r
}

/// Relies on rand's `Alphanumeric` distribution, through
/// `SampleString::sample_string` on the thread-local generator: a string of
/// `len` characters, each drawn from `A-Z`, `a-z` and `0-9`.
#[verifier::external_body]
fn random_alphanumeric(len: usize) -> (r: String)
    ensures
        r@.len() == len,
        forall|i: int| 0 <= i < r@.len() ==> is_alphanumeric(#[trigger] r@[i]),
{
    rand::distr::Alphanumeric.sample_string(&mut rand::rng(), len)
}

/// `r` is a name that `name` may end up with: `name` itself where `taken` is
/// false, else `name` behind some collision tag.
pub open spec fn is_resolution(name: Seq<char>, taken: bool, r: Seq<char>) -> bool {
    if taken {
        exists|t: Seq<char>| is_collision_tag(t) && r == tagged_name_of(t, name)
    } else {
        r == name
    }
}

/// Settles the final name of a file meant to be called `name`, where `taken`
/// says whether the destination already holds an entry of that name. A taken
/// name gets a fresh random tag in front; whether that tagged name is free is
/// not checked again.
pub fn resolve_collision(name: &str, taken: bool) -> (r: String)
    ensures
        is_resolution(name@, taken, r@),
{
    if taken {
        let tag = random_alphanumeric(TAG_LEN);
        let r = tagged_name(tag.as_str(), name);
        assert(is_collision_tag(tag@));
        r
    } else {
        String::from_str(name)
    }
}

/// The characters after [`last_dot_before`] and before `n` are no periods.
proof fn lemma_no_dot_after_last(s: Seq<char>, n: int)
    requires
        0 <= n <= s.len(),
    ensures
        -1 <= last_dot_before(s, n) < n,
        forall|j: int| last_dot_before(s, n) < j < n ==> s[j] != '.',
    decreases n,
{
    if n > 0 && s[n - 1] != '.' {
        lemma_no_dot_after_last(s, n - 1);
    }
}

/// Periods absent from `m..n` leave [`last_dot_before`] where it was at `m`.
proof fn lemma_skip_dotless(s: Seq<char>, m: int, n: int)
    requires
        0 <= m <= n <= s.len(),
        forall|j: int| m <= j < n ==> s[j] != '.',
    ensures
        last_dot_before(s, n) == last_dot_before(s, m),
    decreases n - m,
{
    if n > m {
        lemma_skip_dotless(s, m, n - 1);
    }
}

/// A file named after its title keeps the original extension: its name is the
/// title, a period and that extension, and reading it back gives the title as
/// the part before the last period and the same extension. (A name that comes
/// out as `..` has no extension, and is left aside.)
pub proof fn titled_name_keeps_extension(file_name: Seq<char>, tag: TagTitle)
    requires
        usable_title(tag) is Some,
        extension_of(file_name) is Some,
        destination_name_of(file_name, tag) != seq!['.', '.'],
    ensures
        destination_name_of(file_name, tag) == usable_title(tag)->0 + seq!['.']
            + extension_of(file_name)->0,
        last_dot_before(
            destination_name_of(file_name, tag),
            destination_name_of(file_name, tag).len() as int,
        ) == usable_title(tag)->0.len(),
        extension_of(destination_name_of(file_name, tag)) == extension_of(file_name),
{
    let t = usable_title(tag)->0;
    let e = extension_of(file_name)->0;
    let d = destination_name_of(file_name, tag);
    let i = last_dot_before(file_name, file_name.len() as int);
    lemma_no_dot_after_last(file_name, file_name.len() as int);
    assert(e =~= file_name.subrange(i + 1, file_name.len() as int));
    assert(d =~= t + seq!['.'] + e);
    assert forall|j: int| t.len() + 1 <= j < d.len() implies d[j] != '.' by {
        assert(d[j] == e[j - t.len() - 1]);
        assert(e[j - t.len() - 1] == file_name[j - t.len() + i]);
    }
    lemma_skip_dotless(d, t.len() + 1 as int, d.len() as int);
    assert(d[t.len() as int] == '.');
    assert(last_dot_before(d, t.len() + 1 as int) == t.len());
    assert(d.subrange(t.len() + 1 as int, d.len() as int) =~= e);
    assert(!(d =~= seq!['.', '.']));
}

/// Two files meant for one name both keep a place in the destination: the one
/// that finds the name free keeps it, the one that finds it taken gets a tagged
/// name, and the two names differ.
pub proof fn colliding_names_differ(name: Seq<char>, first: Seq<char>, second: Seq<char>)
    requires
        is_resolution(name, false, first),
        is_resolution(name, true, second),
    ensures
        first == name,
        second != first,
        exists|t: Seq<char>| is_collision_tag(t) && second == tagged_name_of(t, name),
{
    let t = choose|t: Seq<char>| is_collision_tag(t) && second == tagged_name_of(t, name);
    assert(second.len() == name.len() + 6);
}

} // verus!
