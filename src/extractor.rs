use vstd::prelude::*;
use vstd::string::*;
use crate::naming::{is_resolution, resolve_collision};

verus! {

/// `std::io::Error`, carried through unopened in [`ExtractError::IoError`].
#[verifier::external_type_specification]
#[verifier::external_body]
pub struct ExIoError(std::io::Error);

/// The media roots a device may hold, relative to its mount point, in the order
/// they are searched: the common layout, then that of phones with an iTunes
/// compatible store.
pub open spec fn search_paths_spec() -> Seq<Seq<char>> {
    seq!["iPod_Control/Music"@, "iTunes_Control/iPod_Control/Music"@]
}

/// Returns the media roots to search for, see [`search_paths_spec`].
pub fn search_paths() -> (r: Vec<String>)
    ensures
        r.deep_view() == search_paths_spec(),
{
    let r = vec![
        String::from_str("iPod_Control/Music"),
        String::from_str("iTunes_Control/iPod_Control/Music"),
    ];
    assert(r.deep_view() =~= search_paths_spec());
    r
}

/// An extraction: where media is read from and copied to, and whether copies
/// are only reported rather than made.
pub struct Extractor {
    pub source: String,
    pub destination: String,
    pub dry_run: bool,
}

/// Collects the settings of an [`Extractor`].
#[derive(Debug, Clone)]
pub struct ExtractorBuilder {
    pub source: Option<String>,
    pub destination: Option<String>,
    pub dry_run: bool,
}

/// Why an [`ExtractorBuilder`] could not build.
#[derive(Debug, PartialEq, Eq, Structural)]
pub enum ExtractorBuilderError {
    MissingSource,
    MissingDestination,
}

/// Why an extraction failed.
#[derive(Debug)]
pub enum ExtractError {
    /// A filesystem operation failed.
    IoError(std::io::Error),
    /// None of the searched media roots exists under the source; holds those
    /// that were searched.
    NoMediaRootFound(Vec<String>),
}

impl Default for ExtractorBuilder {
    fn default() -> (r: Self)
        ensures
            r.source is None,
            r.destination is None,
            !r.dry_run,
    {
        ExtractorBuilder { source: None, destination: None, dry_run: false }
    }
}

impl Extractor {
    /// Returns a builder with nothing set and dry run off.
    pub fn builder() -> (r: ExtractorBuilder)
        ensures
            r.source is None,
            r.destination is None,
            !r.dry_run,
    {
        ExtractorBuilder::default()
    }
}

impl ExtractorBuilder {
    /// Sets the source path.
    pub fn source(self, path: &str) -> (r: Self)
        ensures
            r.source matches Some(s) && s@ == path@,
            r.destination == self.destination,
            r.dry_run == self.dry_run,
    {
        ExtractorBuilder {
            source: Some(String::from_str(path)),
            destination: self.destination,
            dry_run: self.dry_run,
        }
    }

    /// Sets the destination path.
    pub fn destination(self, path: &str) -> (r: Self)
        ensures
            r.destination matches Some(d) && d@ == path@,
            r.source == self.source,
            r.dry_run == self.dry_run,
    {
        ExtractorBuilder {
            source: self.source,
            destination: Some(String::from_str(path)),
            dry_run: self.dry_run,
        }
    }

    /// Turns dry run on.
    pub fn dry_run(self) -> (r: Self)
        ensures
            r.dry_run,
            r.source == self.source,
            r.destination == self.destination,
    {
        ExtractorBuilder { source: self.source, destination: self.destination, dry_run: true }
    }

    /// Builds the [`Extractor`]; the source is required first, then the
    /// destination.
    pub fn build(self) -> (r: Result<Extractor, ExtractorBuilderError>)
        ensures
            match r {
                Ok(e) => self.source == Some(e.source) && self.destination == Some(e.destination)
                    && e.dry_run == self.dry_run,
                Err(err) => (err == ExtractorBuilderError::MissingSource) == (self.source is None)
                    && (err == ExtractorBuilderError::MissingDestination) == (self.source is Some
                    && self.destination is None),
            },
    {
        match self.source {
            None => Err(ExtractorBuilderError::MissingSource),
            Some(source) => match self.destination {
                None => Err(ExtractorBuilderError::MissingDestination),
                Some(destination) => Ok(Extractor { source, destination, dry_run: self.dry_run }),
            },
        }
    }
}

/// The roots among the first `n` of `paths` that `present` marks as existing, in
/// order; a root with no mark counts as absent.
pub open spec fn roots_present(paths: Seq<Seq<char>>, present: Seq<bool>, n: int) -> Seq<Seq<char>>
    decreases n,
{
    if n <= 0 {
        Seq::empty()
    } else {
        let before = roots_present(paths, present, n - 1);
        if n - 1 < present.len() && present[n - 1] {
            before.push(paths[n - 1])
        } else {
            before
        }
    }
}

/// The media roots to walk, given which of [`search_paths`] exist under the
/// source (`present[i]` for the `i`-th). Every existing root is walked, in
/// search order; where none exists the extraction fails and names the roots
/// that were searched.
pub fn select_media_roots(present: &Vec<bool>) -> (r: Result<Vec<String>, ExtractError>)
    ensures
        match r {
            Ok(roots) => roots.deep_view() == roots_present(search_paths_spec(), present@, 2)
                && roots@.len() > 0,
            Err(e) => (e matches ExtractError::NoMediaRootFound(tried) && tried.deep_view()
                == search_paths_spec()) && roots_present(search_paths_spec(), present@, 2).len()
                == 0,
        },
{
    let paths = search_paths();
    let mut roots: Vec<String> = Vec::new();
    assert(paths@.len() == paths.deep_view().len());
    let mut i: usize = 0;
    while i < paths.len()
        invariant
            i <= paths@.len() == 2,
            paths.deep_view() == search_paths_spec(),
            roots.deep_view() == roots_present(search_paths_spec(), present@, i as int),
        decreases paths@.len() - i,
    {
        if i < present.len() && present[i] {
            roots.push(paths[i].clone());
            assert(roots.deep_view() =~= roots_present(search_paths_spec(), present@, i + 1));
        }
        i = i + 1;
    }
    if roots.len() == 0 {
        Err(ExtractError::NoMediaRootFound(paths))
    } else {
        Ok(roots)
    }
}

/// What to do with one media file: the name it takes in the destination, and
/// whether its bytes are copied there.
pub struct CopyPlan {
    pub name: String,
    pub copy: bool,
}

impl Extractor {
    /// Plans the copy of a file meant to be called `name` in the destination,
    /// where `taken` says whether the destination already holds that name. The
    /// name is settled by [`resolve_collision`]; the copy is made unless this is
    /// a dry run.
    pub fn plan_copy(&self, name: &str, taken: bool) -> (r: CopyPlan)
        ensures
            is_resolution(name@, taken, r.name@),
            r.copy == !self.dry_run,
    {
        CopyPlan { name: resolve_collision(name, taken), copy: !self.dry_run }
    }
}

/// How many of `plans` copy bytes into the destination.
pub open spec fn copies_of(plans: Seq<CopyPlan>) -> nat
    decreases plans.len(),
{
    if plans.len() == 0 {
        0
    } else {
        copies_of(plans.drop_last()) + if plans.last().copy { 1nat } else { 0nat }
    }
}

/// Over the plans of one extraction, a dry run copies nothing, and any other run
/// copies each media file once.
pub proof fn copies_follow_dry_run(e: Extractor, plans: Seq<CopyPlan>)
    requires
        forall|i: int| 0 <= i < plans.len() ==> (#[trigger] plans[i]).copy == !e.dry_run,
    ensures
        copies_of(plans) == if e.dry_run { 0 } else { plans.len() },
    decreases plans.len(),
{
    if plans.len() > 0 {
        let rest = plans.drop_last();
        assert forall|i: int| 0 <= i < rest.len() implies (#[trigger] rest[i]).copy == !e.dry_run by {
            assert(rest[i] == plans[i]);
        }
        copies_follow_dry_run(e, rest);
        assert(plans.last() == plans[plans.len() - 1]);
    }
}

/// Where no searched media root is present, no root is walked, so nothing is
/// copied into the destination.
pub proof fn absent_roots_walk_nothing(present: Seq<bool>)
    requires
        forall|i: int| 0 <= i < present.len() ==> !(#[trigger] present[i]),
    ensures
        roots_present(search_paths_spec(), present, 2).len() == 0,
{
    reveal_with_fuel(roots_present, 3);
}

impl ExtractorBuilderError {
    /// A sentence that says what was missing.
    pub fn message(&self) -> (r: String)
        ensures
            r@ == match self {
                ExtractorBuilderError::MissingSource => "no source provided"@,
                ExtractorBuilderError::MissingDestination => "no destination provided"@,
            },
    {
        match self {
            ExtractorBuilderError::MissingSource => String::from_str("no source provided"),
            ExtractorBuilderError::MissingDestination => String::from_str(
                "no destination provided",
            ),
        }
    }
}

/// `s` between double quotes.
pub open spec fn quoted(s: Seq<char>) -> Seq<char> {
    seq!['"'] + s + seq!['"']
}

/// The items, each quoted, separated by a comma and a space.
pub open spec fn list_text(items: Seq<Seq<char>>) -> Seq<char>
    decreases items.len(),
{
    if items.len() == 0 {
        Seq::empty()
    } else if items.len() == 1 {
        quoted(items[0])
    } else {
        list_text(items.drop_last()) + seq![',', ' '] + quoted(items.last())
    }
}

/// The report of a search that found no media root, listing the roots searched.
pub open spec fn no_root_text(tried: Seq<Seq<char>>) -> Seq<char> {
    "No media directory found after searching these paths: "@ + seq!['['] + list_text(tried)
        + seq![']']
}

impl ExtractError {
    /// A sentence that says what went wrong: the filesystem's own words for an
    /// I/O failure, else the list of media roots that were searched.
    pub fn message(&self) -> (r: String)
        ensures
            self matches ExtractError::NoMediaRootFound(tried) ==> r@ == no_root_text(
                tried.deep_view(),
            ),
    {
        match self {
            ExtractError::IoError(err) => err.to_string(),
            ExtractError::NoMediaRootFound(tried) => {
                let open = "[";
                let close = "]";
                let quote = "\"";
                let sep = ", ";
                proof {
                    reveal_strlit("[");
                    reveal_strlit("]");
                    reveal_strlit("\"");
                    reveal_strlit(", ");
                }
                let ghost items = tried.deep_view();
                let mut r = String::from_str(
                    "No media directory found after searching these paths: ",
                );
                r.append(open);
                let ghost head = r@;
                let mut i: usize = 0;
                assert(items.subrange(0, 0).len() == 0);
                assert(quote@ =~= seq!['"']);
                assert(sep@ =~= seq![',', ' ']);
                while i < tried.len()
                    invariant
                        i <= tried@.len() == items.len(),
                        items == tried.deep_view(),
                        quote@ == seq!['"'],
                        sep@ == seq![',', ' '],
                        head == "No media directory found after searching these paths: "@
                            + seq!['['],
                        r@ == head + list_text(items.subrange(0, i as int)),
                    decreases tried@.len() - i,
                {
                    let ghost prev = r@;
                    if i > 0 {
                        r.append(sep);
                    }
                    r.append(quote);
                    r.append(tried[i].as_str());
                    r.append(quote);
                    proof {
                        let sub = items.subrange(0, i + 1);
                        assert(sub.drop_last() =~= items.subrange(0, i as int));
                        assert(items[i as int] == tried@[i as int]@);
                        assert(sub.last() == tried@[i as int]@);
                        if i == 0 {
                            assert(sub.len() == 1);
                            assert(list_text(sub) == quoted(sub[0]));
                            assert(r@ =~= head + list_text(sub));
                        } else {
                            assert(list_text(sub) == list_text(sub.drop_last()) + seq![',', ' ']
                                + quoted(sub.last()));
                            assert(r@ =~= prev + seq![',', ' '] + quoted(sub.last()));
                            assert(r@ =~= head + list_text(sub));
                        }
                    }
                    i = i + 1;
                }
                r.append(close);
                assert(items.subrange(0, items.len() as int) =~= items);
                assert(r@ =~= no_root_text(items));
                r
            },
        }
    }
}

} // verus!
