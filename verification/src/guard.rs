//! The destination guard.
//!
//! Before any snapshot directory is created, [`Initializer::run`] decides
//! whether a destination directory may be used for a given source: it must
//! be bound to that source by a marker file, or be empty so that the binding
//! can be established. A destination carrying a marker of a different source
//! is rejected, so unrelated backup sets can never mix.
//!
//! The guard works on what the surrounding process observed on disk — the
//! status of the two paths and the immediate children of the destination —
//! and returns the action to take; creating the marker file itself, and
//! making it read-only, is the caller's part.

use vstd::prelude::*;

use crate::errors::SnapError;

verus! {

/// What inspecting one path reports.
#[derive(Clone, Copy, Debug, PartialEq, Eq, Structural)]
pub struct PathStatus {
    pub is_absolute: bool,
    pub exists: bool,
    pub is_directory: bool,
}

/// Both roots must be absolute paths that exist and are directories.
pub open spec fn valid_roots(source: PathStatus, destination: PathStatus) -> bool {
    &&& source.is_absolute && destination.is_absolute
    &&& source.exists && destination.exists
    &&& source.is_directory && destination.is_directory
}

/// One immediate child of the destination directory.
#[derive(Debug, PartialEq, Eq)]
pub struct ListingEntry {
    pub name: String,
    pub is_file: bool,
}

/// What the guard asks the caller to do on success.
#[derive(Debug, PartialEq, Eq)]
pub enum GuardAction {
    /// Create the named marker file in the destination and make it
    /// read-only before anything else is written there.
    CreateMarker { marker: String },
    /// The destination is already bound to this source; nothing to do.
    AlreadyInitialized,
}

/// The success cases of the guard, stripped of the marker file name.
#[derive(Clone, Copy, Debug, PartialEq, Eq, Structural)]
pub enum GuardOutcome {
    CreateMarker,
    AlreadyInitialized,
}

/// The guard's result with the marker file name abstracted away.
pub open spec fn outcome_of(r: Result<GuardAction, SnapError>) -> Result<
    GuardOutcome,
    SnapError,
> {
    match r {
        Result::Ok(GuardAction::CreateMarker { .. }) => Result::Ok(GuardOutcome::CreateMarker),
        Result::Ok(GuardAction::AlreadyInitialized) => Result::Ok(
            GuardOutcome::AlreadyInitialized,
        ),
        Result::Err(e) => Result::Err(e),
    }
}

/// The marker file name derived from a source's final path component: a
/// hidden file named after the component, carrying the marker extension.
pub open spec fn marker_name_spec(base: Seq<char>, ext: Seq<char>) -> Seq<char> {
    seq!['.'] + base + seq!['.'] + ext
}

/// The extension of a file name: the portion after the last `.`, except
/// that a name without a `.`, or whose only `.` leads it, has none.
pub open spec fn extension_of(name: Seq<char>) -> Option<Seq<char>>
    decreases name.len(),
{
    if name.len() <= 1 {
        Option::None
    } else if name.last() == '.' {
        Option::Some(Seq::empty())
    } else {
        match extension_of(name.drop_last()) {
            Option::Some(e) => Option::Some(e.push(name.last())),
            Option::None => Option::None,
        }
    }
}

/// A name whose every `.` leads it (or that has none) has no extension.
proof fn lemma_extension_none(name: Seq<char>)
    requires
        forall|j: int| 1 <= j < name.len() ==> name[j] != '.',
    ensures
        extension_of(name) is None,
    decreases name.len(),
{
    if name.len() > 1 {
        lemma_extension_none(name.drop_last());
    }
}

/// With its last `.` at a position past the first character, a name's
/// extension is everything after that `.`.
proof fn lemma_extension_suffix(name: Seq<char>, ld: int)
    requires
        1 <= ld < name.len(),
        name[ld] == '.',
        forall|j: int| ld < j < name.len() ==> name[j] != '.',
    ensures
        extension_of(name) == Option::Some(name.subrange(ld + 1, name.len() as int)),
    decreases name.len(),
{
    if ld == name.len() - 1 {
        assert(name.subrange(ld + 1, name.len() as int) =~= Seq::<char>::empty());
    } else {
        lemma_extension_suffix(name.drop_last(), ld);
        assert(name.subrange(ld + 1, name.len() as int) =~= name.drop_last().subrange(
            ld + 1,
            name.len() - 1,
        ).push(name.last()));
    }
}

/// Whether the destination listing holds a marker file bound to a source
/// other than the one deriving `marker`: a file whose name carries the
/// marker extension but is not `marker` itself.
pub open spec fn conflicting_marker_exists(
    listing: Seq<ListingEntry>,
    ext: Seq<char>,
    marker: Seq<char>,
) -> bool {
    exists|i: int|
        #![auto]
        0 <= i < listing.len() && listing[i].is_file && extension_of(listing[i].name@)
            == Option::Some(ext) && listing[i].name@ != marker
}

/// Whether the listing holds an entry of the given name, of any kind.
pub open spec fn contains_name(listing: Seq<ListingEntry>, name: Seq<char>) -> bool {
    exists|i: int| #![auto] 0 <= i < listing.len() && listing[i].name@ == name
}

/// What the guard decides from what it observed, in the order the checks
/// are made: invalid roots are rejected first; a marker of a different
/// source is a conflict; a destination already carrying this source's
/// marker needs nothing; otherwise the destination must be empty for the
/// marker to be created.
pub open spec fn guard_decision(
    valid: bool,
    conflict: bool,
    marker_present: bool,
    empty: bool,
) -> Result<GuardOutcome, SnapError> {
    if !valid {
        Result::Err(SnapError::InvalidInput)
    } else if conflict {
        Result::Err(SnapError::DestinationConflict)
    } else if marker_present {
        Result::Ok(GuardOutcome::AlreadyInitialized)
    } else if !empty {
        Result::Err(SnapError::DestinationNotEmpty)
    } else {
        Result::Ok(GuardOutcome::CreateMarker)
    }
}

/// Whether two string slices hold the same characters.
fn str_eq(a: &str, b: &str) -> (r: bool)
    ensures
        r == (a@ == b@),
{
    let la = a.unicode_len();
    let lb = b.unicode_len();
    if la != lb {
        return false;
    }
    let mut i: usize = 0;
    while i < la
        invariant
            i <= la,
            la == a@.len(),
            la == b@.len(),
            forall|j: int| 0 <= j < i ==> a@[j] == b@[j],
        decreases la - i,
    {
        if a.get_char(i) != b.get_char(i) {
            return false;
        }
        i = i + 1;
    }
    proof {
        assert(a@ =~= b@);
    }
    true
}

/// Whether `name`'s extension is exactly `ext`.
#[verifier::loop_isolation(false)]
fn extension_matches(name: &str, ext: &str) -> (r: bool)
    ensures
        r == (extension_of(name@) == Option::Some(ext@)),
{
    let n = name.unicode_len();
    let mut j: usize = 0;
    let mut last_dot: usize = 0;
    let mut found = false;
    while j < n
        invariant
            j <= n,
            found ==> last_dot < j && name@[last_dot as int] == '.' && (forall|k: int|
                last_dot < k < j ==> name@[k] != '.'),
            !found ==> forall|k: int| 0 <= k < j ==> name@[k] != '.',
        decreases n - j,
    {
        if name.get_char(j) == '.' {
            last_dot = j;
            found = true;
        }
        j = j + 1;
    }
    if !found || last_dot == 0 {
        proof {
            lemma_extension_none(name@);
        }
        false
    } else {
        let suffix = name.substring_char(last_dot + 1, n);
        proof {
            lemma_extension_suffix(name@, last_dot as int);
        }
        str_eq(suffix, ext)
    }
}

/// The destination guard: binds a destination directory to exactly one
/// source root, idempotently across runs.
pub struct Initializer {
    file_extension: String,
}

impl Default for Initializer {
    fn default() -> (r: Self)
        ensures
            r.extension_spec() == "snapshoot"@,
    {
        Initializer { file_extension: "snapshoot".to_owned() }
    }
}

impl Initializer {
    /// The extension that makes a file a marker file.
    pub closed spec fn extension_spec(&self) -> Seq<char> {
        self.file_extension@
    }

    /// The marker file name this guard derives for a source of the given
    /// final path component.
    pub fn marker_file_name(&self, source_name: &str) -> (r: String)
        ensures
            r@ == marker_name_spec(source_name@, self.extension_spec()),
    {
        proof {
            reveal_strlit(".");
            assert("."@ =~= seq!['.']);
        }
        let mut r = String::new();
        r.append(".");
        r.append(source_name);
        r.append(".");
        r.append(self.file_extension.as_str());
        proof {
            assert(r@ =~= marker_name_spec(source_name@, self.extension_spec()));
        }
        r
    }

    /// Whether the destination was already initialized for another source:
    /// some file in it carries the marker extension under a different name.
    #[verifier::loop_isolation(false)]
    fn another_initialization(&self, listing: &Vec<ListingEntry>, marker: &String) -> (r: bool)
        ensures
            r == conflicting_marker_exists(listing@, self.extension_spec(), marker@),
    {
        let mut i: usize = 0;
        while i < listing.len()
            invariant
                i <= listing@.len(),
                forall|j: int|
                    #![auto]
                    0 <= j < i ==> !(listing@[j].is_file && extension_of(listing@[j].name@)
                        == Option::Some(self.extension_spec()) && listing@[j].name@ != marker@),
            decreases listing@.len() - i,
        {
            let e = &listing[i];
            if e.is_file && extension_matches(e.name.as_str(), self.file_extension.as_str())
                && !e.name.eq(marker) {
                return true;
            }
            i = i + 1;
        }
        false
    }

    /// Whether the destination already holds an entry of the given name.
    #[verifier::loop_isolation(false)]
    fn name_present(listing: &Vec<ListingEntry>, name: &String) -> (r: bool)
        ensures
            r == contains_name(listing@, name@),
    {
        let mut i: usize = 0;
        while i < listing.len()
            invariant
                i <= listing@.len(),
                forall|j: int| #![auto] 0 <= j < i ==> listing@[j].name@ != name@,
            decreases listing@.len() - i,
        {
            if listing[i].name.eq(name) {
                return true;
            }
            i = i + 1;
        }
        false
    }

    /// Decides whether the destination may receive snapshots of the source.
    ///
    /// `source_name` is the source's final path component, and
    /// `destination_entries` are the immediate children of the destination.
    /// On `CreateMarker` the caller must create the named file read-only in
    /// the destination before proceeding; on `AlreadyInitialized` the
    /// destination is already bound to this source and nothing changes.
    pub fn run(
        &self,
        source: &PathStatus,
        source_name: &str,
        destination: &PathStatus,
        destination_entries: &Vec<ListingEntry>,
    ) -> (r: Result<GuardAction, SnapError>)
        ensures
            outcome_of(r) == guard_decision(
                valid_roots(*source, *destination),
                conflicting_marker_exists(
                    destination_entries@,
                    self.extension_spec(),
                    marker_name_spec(source_name@, self.extension_spec()),
                ),
                contains_name(
                    destination_entries@,
                    marker_name_spec(source_name@, self.extension_spec()),
                ),
                destination_entries@.len() == 0,
            ),
            r matches Result::Ok(GuardAction::CreateMarker { marker }) ==> marker@
                == marker_name_spec(source_name@, self.extension_spec()),
    {
        if !source.is_absolute || !destination.is_absolute {
            return Result::Err(SnapError::InvalidInput);
        }
        if !source.exists || !destination.exists {
            return Result::Err(SnapError::InvalidInput);
        }
        if !source.is_directory || !destination.is_directory {
            return Result::Err(SnapError::InvalidInput);
        }
        let marker = self.marker_file_name(source_name);
        if self.another_initialization(destination_entries, &marker) {
            return Result::Err(SnapError::DestinationConflict);
        }
        if !Self::name_present(destination_entries, &marker) {
            if destination_entries.len() != 0 {
                return Result::Err(SnapError::DestinationNotEmpty);
            }
            Result::Ok(GuardAction::CreateMarker { marker })
        } else {
            Result::Ok(GuardAction::AlreadyInitialized)
        }
    }
}

/// The guard is idempotent: run against an empty destination it asks for
/// the marker to be created, and run again — the destination now holding
/// exactly that one marker file — it succeeds without asking for another,
/// so one marker remains.
pub proof fn lemma_guard_idempotent(
    ext: Seq<char>,
    base: Seq<char>,
    before: Seq<ListingEntry>,
    after: Seq<ListingEntry>,
)
    requires
        before.len() == 0,
        after.len() == 1,
        after[0].name@ == marker_name_spec(base, ext),
    ensures
        guard_decision(
            true,
            conflicting_marker_exists(before, ext, marker_name_spec(base, ext)),
            contains_name(before, marker_name_spec(base, ext)),
            before.len() == 0,
        ) == Result::<GuardOutcome, SnapError>::Ok(GuardOutcome::CreateMarker),
        guard_decision(
            true,
            conflicting_marker_exists(after, ext, marker_name_spec(base, ext)),
            contains_name(after, marker_name_spec(base, ext)),
            after.len() == 0,
        ) == Result::<GuardOutcome, SnapError>::Ok(GuardOutcome::AlreadyInitialized),
{
    assert(contains_name(after, marker_name_spec(base, ext)));
}

/// Two different source names derive two different marker names.
proof fn lemma_marker_name_injective(a: Seq<char>, b: Seq<char>, ext: Seq<char>)
    requires
        a != b,
    ensures
        marker_name_spec(a, ext) != marker_name_spec(b, ext),
{
    let ma = marker_name_spec(a, ext);
    let mb = marker_name_spec(b, ext);
    if ma == mb {
        assert(ma.len() == 2 + a.len() + ext.len());
        assert(mb.len() == 2 + b.len() + ext.len());
        assert(a.len() == b.len());
        assert(a =~= b) by {
            assert(forall|j: int| 0 <= j < a.len() ==> a[j] == ma[j + 1] && b[j] == mb[j + 1]);
        }
    }
}

/// A marker name carries the marker extension, provided the extension
/// itself holds no dot.
proof fn lemma_marker_name_extension(base: Seq<char>, ext: Seq<char>)
    requires
        forall|j: int| 0 <= j < ext.len() ==> ext[j] != '.',
    ensures
        extension_of(marker_name_spec(base, ext)) == Option::Some(ext),
{
    let m = marker_name_spec(base, ext);
    let ld = 1 + base.len();
    lemma_extension_suffix(m, ld as int);
    assert(m.subrange(ld as int + 1, m.len() as int) =~= ext);
}

/// Initializing a destination against one source and then against a
/// source of a different name is a conflict: the second run fails, and the
/// destination stays bound to the first source. The marker extension holds
/// no dot, as the fixed extension never does.
pub proof fn lemma_guard_conflict(
    ext: Seq<char>,
    base_a: Seq<char>,
    base_b: Seq<char>,
    listing: Seq<ListingEntry>,
)
    requires
        base_a != base_b,
        forall|j: int| 0 <= j < ext.len() ==> ext[j] != '.',
        listing.len() == 1,
        listing[0].is_file,
        listing[0].name@ == marker_name_spec(base_a, ext),
    ensures
        guard_decision(
            true,
            conflicting_marker_exists(listing, ext, marker_name_spec(base_b, ext)),
            contains_name(listing, marker_name_spec(base_b, ext)),
            listing.len() == 0,
        ) == Result::<GuardOutcome, SnapError>::Err(SnapError::DestinationConflict),
{
    lemma_marker_name_extension(base_a, ext);
    lemma_marker_name_injective(base_a, base_b, ext);
    assert(conflicting_marker_exists(listing, ext, marker_name_spec(base_b, ext)));
}

} // verus!
