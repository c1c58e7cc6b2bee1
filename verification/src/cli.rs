//! Decisions of the command-line tool: how an argument is routed, what a
//! push may do with it, how the report and delete modes combine, and which
//! lines a registry report shows.
use crate::image_ref::ImageRef;
use vstd::prelude::*;
use vstd::string::StringExecFns;

verus! {

/// What a command argument names.
#[derive(Debug)]
pub enum ImageRefOrPath {
    /// An image in the local registry.
    Local(ImageRef),
    /// An image not found in the local registry, to be looked up remotely.
    Remote(ImageRef),
    /// An OCI archive file.
    OciArchive(String),
    /// An OCI image layout directory.
    OciDir(String),
}

/// The result of looking an image up in the local registry.
#[derive(Clone, Copy, PartialEq, Eq, Structural, Debug)]
pub enum LocalProbe {
    Found,
    Missing,
    /// The registry could not be opened or read; the image is then looked up remotely.
    Failed,
}

/// The argument is neither an existing path nor an image reference.
#[derive(Debug)]
pub struct InvalidInput {
    pub input: String,
}

impl ImageRefOrPath {
    /// Routes an argument: an existing directory or file wins; otherwise a
    /// valid image reference is local when the local registry has it, and
    /// remote when it does not or cannot tell; anything else is invalid.
    /// `name` is the argument read as an image reference, where it is one.
    pub fn route(input: String, is_dir: bool, is_file: bool, name: Option<ImageRef>, probe: LocalProbe) -> (r: Result<
        ImageRefOrPath,
        InvalidInput,
    >)
        ensures
            is_dir ==> (r matches Ok(ImageRefOrPath::OciDir(p)) && p@ == input@),
            !is_dir && is_file ==> (r matches Ok(ImageRefOrPath::OciArchive(p)) && p@ == input@),
            !is_dir && !is_file ==> match name {
                None => r matches Err(e) && e.input@ == input@,
                Some(n) => if probe == LocalProbe::Found {
                    r matches Ok(ImageRefOrPath::Local(m)) && m@ == n@
                } else {
                    r matches Ok(ImageRefOrPath::Remote(m)) && m@ == n@
                },
            },
    {
        if is_dir {
            return Ok(ImageRefOrPath::OciDir(input));
        }
        if is_file {
            return Ok(ImageRefOrPath::OciArchive(input));
        }
        match name {
            Some(n) => match probe {
                LocalProbe::Found => Ok(ImageRefOrPath::Local(n)),
                _ => Ok(ImageRefOrPath::Remote(n)),
            },
            None => Err(InvalidInput { input }),
        }
    }
}

/// Why the push command refused its argument.
#[derive(Debug)]
pub enum PushRefusal {
    /// An OCI image layout directory must be imported before it is pushed.
    Directory(String),
    /// An OCI archive must be imported before it is pushed.
    Archive(String),
    /// The image exists only in the pre-v3 directory layout and must be migrated first.
    LegacyOnly(ImageRef),
    /// The image is not in the local registry.
    NotFoundLocally(ImageRef),
}

/// What the push command pushes: only an image of the local registry. A path
/// is refused with the advice to import it; an image that is not local is
/// refused, with the migration advice when it exists in the pre-v3 layout.
pub fn push_target(target: ImageRefOrPath, legacy_exists: bool) -> (r: Result<ImageRef, PushRefusal>)
    ensures
        match target {
            ImageRefOrPath::Local(n) => r matches Ok(m) && m@ == n@,
            ImageRefOrPath::OciDir(p) => r matches Err(PushRefusal::Directory(q)) && q@ == p@,
            ImageRefOrPath::OciArchive(p) => r matches Err(PushRefusal::Archive(q)) && q@ == p@,
            ImageRefOrPath::Remote(n) => if legacy_exists {
                r matches Err(PushRefusal::LegacyOnly(m)) && m@ == n@
            } else {
                r matches Err(PushRefusal::NotFoundLocally(m)) && m@ == n@
            },
        },
{
    match target {
        ImageRefOrPath::Local(n) => Ok(n),
        ImageRefOrPath::OciDir(p) => Err(PushRefusal::Directory(p)),
        ImageRefOrPath::OciArchive(p) => Err(PushRefusal::Archive(p)),
        ImageRefOrPath::Remote(n) => if legacy_exists {
            Err(PushRefusal::LegacyOnly(n))
        } else {
            Err(PushRefusal::NotFoundLocally(n))
        },
    }
}

/// Whether a cleanup command only reports or also deletes.
#[derive(Clone, Copy, PartialEq, Eq, Structural, Debug)]
pub enum CleanupMode {
    Report,
    Delete,
}

/// `--dry-run` and `--delete` were both given.
#[derive(Clone, Copy, PartialEq, Eq, Structural, Debug)]
pub struct ConflictingFlags;

impl ConflictingFlags {
    /// The text that reports the error.
    pub fn message(&self) -> (r: String)
        ensures
            r@ == "--dry-run and --delete cannot be used together"@,
    {
        String::from_str("--dry-run and --delete cannot be used together")
    }
}

/// The mode of a cleanup command: reporting is the default, `--delete`
/// deletes, and the two flags together are refused.
pub fn cleanup_mode(dry_run: bool, delete: bool) -> (r: Result<CleanupMode, ConflictingFlags>)
    ensures
        dry_run && delete ==> r == Err::<CleanupMode, ConflictingFlags>(ConflictingFlags),
        !(dry_run && delete) ==> r == Ok::<CleanupMode, ConflictingFlags>(
            if delete {
                CleanupMode::Delete
            } else {
                CleanupMode::Report
            },
        ),
{
    if dry_run && delete {
        Err(ConflictingFlags)
    } else if delete {
        Ok(CleanupMode::Delete)
    } else {
        Ok(CleanupMode::Report)
    }
}

/// What pruning anonymous refs does with the refs it found.
#[derive(Clone, Copy, PartialEq, Eq, Structural, Debug)]
pub enum PruneOutcome {
    /// Nothing matched.
    Clean,
    /// The matching refs are deleted.
    Remove,
    /// The matching refs are listed; the registry is left unchanged.
    Candidates,
}

/// Pruning reports a clean registry when nothing matched, deletes in delete
/// mode, and otherwise lists the candidates.
pub fn prune_outcome(matching: usize, mode: CleanupMode) -> (r: PruneOutcome)
    ensures
        r == (if matching == 0 {
            PruneOutcome::Clean
        } else if mode == CleanupMode::Delete {
            PruneOutcome::Remove
        } else {
            PruneOutcome::Candidates
        }),
{
    if matching == 0 {
        PruneOutcome::Clean
    } else {
        match mode {
            CleanupMode::Delete => PruneOutcome::Remove,
            CleanupMode::Report => PruneOutcome::Candidates,
        }
    }
}

/// The binary unit a byte count is shown in: B, KiB, MiB, GiB, TiB.
pub open spec fn unit_power(u: nat) -> nat
    decreases u,
{
    if u == 0 {
        1
    } else {
        1024 * unit_power((u - 1) as nat)
    }
}

/// The index of the largest unit, up to TiB, that the count reaches (B for
/// counts under 1024).
pub open spec fn byte_unit_spec(bytes: u64) -> nat {
    if bytes >= unit_power(4) {
        4
    } else if bytes >= unit_power(3) {
        3
    } else if bytes >= unit_power(2) {
        2
    } else if bytes >= unit_power(1) {
        1
    } else {
        0
    }
}

/// The unit in which a byte count is shown: the largest of B, KiB, MiB,
/// GiB and TiB (by index) that the count reaches.
pub fn byte_unit(bytes: u64) -> (r: usize)
    ensures
        r == byte_unit_spec(bytes),
        r <= 4,
{
    proof {
        reveal_with_fuel(unit_power, 5);
    }
    if bytes >= 1099511627776 {
        4
    } else if bytes >= 1073741824 {
        3
    } else if bytes >= 1048576 {
        2
    } else if bytes >= 1024 {
        1
    } else {
        0
    }
}

/// The symbol of a unit index.
pub fn unit_label(unit: usize) -> (r: &'static str)
    requires
        unit <= 4,
    ensures
        unit == 0 ==> r@ == "B"@,
        unit == 1 ==> r@ == "KiB"@,
        unit == 2 ==> r@ == "MiB"@,
        unit == 3 ==> r@ == "GiB"@,
        unit == 4 ==> r@ == "TiB"@,
{
    if unit == 0 {
        "B"
    } else if unit == 1 {
        "KiB"
    } else if unit == 2 {
        "MiB"
    } else if unit == 3 {
        "GiB"
    } else {
        "TiB"
    }
}

/// Counts and sizes of a garbage-collection report of the local registry.
#[derive(Clone, Copy, PartialEq, Eq, Structural, Debug)]
pub struct GcSummary {
    pub roots: u64,
    pub reachable_blobs: u64,
    pub reachable_size: u64,
    pub orphan_candidates: u64,
    pub orphan_candidate_size: u64,
    pub deferred_blobs: u64,
    pub deferred_size: u64,
    pub missing_blobs: u64,
    pub invalid_manifests: u64,
}

/// The sections of a garbage-collection report.
#[derive(Clone, Copy, PartialEq, Eq, Structural, Debug)]
pub enum GcSection {
    Roots,
    Reachable,
    Orphans,
    Deferred,
    Missing,
    Invalid,
    Deleted,
    Skipped,
}

/// One line of a report: its section, a count, a size in bytes where the
/// section has one, and whether the digests of the blobs follow.
#[derive(Clone, Copy, PartialEq, Eq, Structural, Debug)]
pub struct GcLine {
    pub section: GcSection,
    pub count: u64,
    pub size: Option<u64>,
    pub list_digests: bool,
}

/// The lines of a report: roots, reachable, orphan candidates and deferred
/// blobs always; missing blobs and invalid manifests only when there are
/// some. Digests follow the blob sections only on request.
pub open spec fn gc_lines_spec(s: GcSummary, show_digests: bool) -> Seq<GcLine> {
    seq![
        GcLine { section: GcSection::Roots, count: s.roots, size: None, list_digests: false },
        GcLine { section: GcSection::Reachable, count: s.reachable_blobs, size: Some(s.reachable_size), list_digests: false },
        GcLine {
            section: GcSection::Orphans,
            count: s.orphan_candidates,
            size: Some(s.orphan_candidate_size),
            list_digests: show_digests,
        },
        GcLine { section: GcSection::Deferred, count: s.deferred_blobs, size: Some(s.deferred_size), list_digests: show_digests },
    ] + (if s.missing_blobs > 0 {
        seq![GcLine { section: GcSection::Missing, count: s.missing_blobs, size: None, list_digests: show_digests }]
    } else {
        Seq::empty()
    }) + (if s.invalid_manifests > 0 {
        seq![GcLine { section: GcSection::Invalid, count: s.invalid_manifests, size: None, list_digests: show_digests }]
    } else {
        Seq::empty()
    })
}

/// The lines of a garbage-collection report, in order.
pub fn gc_report_lines(s: GcSummary, show_digests: bool) -> (r: Vec<GcLine>)
    ensures
        r@ == gc_lines_spec(s, show_digests),
{
    let mut out: Vec<GcLine> = Vec::new();
    out.push(GcLine { section: GcSection::Roots, count: s.roots, size: None, list_digests: false });
    out.push(GcLine { section: GcSection::Reachable, count: s.reachable_blobs, size: Some(s.reachable_size), list_digests: false });
    out.push(
        GcLine {
            section: GcSection::Orphans,
            count: s.orphan_candidates,
            size: Some(s.orphan_candidate_size),
            list_digests: show_digests,
        },
    );
    out.push(GcLine { section: GcSection::Deferred, count: s.deferred_blobs, size: Some(s.deferred_size), list_digests: show_digests });
    if s.missing_blobs > 0 {
        out.push(GcLine { section: GcSection::Missing, count: s.missing_blobs, size: None, list_digests: show_digests });
    }
    if s.invalid_manifests > 0 {
        out.push(GcLine { section: GcSection::Invalid, count: s.invalid_manifests, size: None, list_digests: show_digests });
    }
    assert(out@ =~= gc_lines_spec(s, show_digests));
    out
}

/// The lines of a garbage collection that deleted: the report, then the
/// deleted blobs, then the blobs skipped because they changed before
/// deletion, only when there are some.
pub open spec fn gc_delete_lines_spec(
    s: GcSummary,
    deleted: u64,
    deleted_size: u64,
    skipped: u64,
    show_digests: bool,
) -> Seq<GcLine> {
    gc_lines_spec(s, show_digests).push(
        GcLine { section: GcSection::Deleted, count: deleted, size: Some(deleted_size), list_digests: show_digests },
    ) + (if skipped > 0 {
        seq![GcLine { section: GcSection::Skipped, count: skipped, size: None, list_digests: show_digests }]
    } else {
        Seq::empty()
    })
}

/// The lines of the report of a garbage collection that deleted, in order.
pub fn gc_delete_report_lines(s: GcSummary, deleted: u64, deleted_size: u64, skipped: u64, show_digests: bool) -> (r: Vec<GcLine>)
    ensures
        r@ == gc_delete_lines_spec(s, deleted, deleted_size, skipped, show_digests),
{
    let mut out = gc_report_lines(s, show_digests);
    out.push(GcLine { section: GcSection::Deleted, count: deleted, size: Some(deleted_size), list_digests: show_digests });
    if skipped > 0 {
        out.push(GcLine { section: GcSection::Skipped, count: skipped, size: None, list_digests: show_digests });
    }
    assert(out@ =~= gc_delete_lines_spec(s, deleted, deleted_size, skipped, show_digests));
    out
}

/// What removing an image ref goes on to do.
#[derive(Clone, Copy, PartialEq, Eq, Structural, Debug)]
pub enum RmOutcome {
    /// The ref was removed; a garbage collection follows where one was asked for.
    Removed { run_gc: bool },
    /// No such ref: nothing is removed and no garbage collection runs.
    NotFound,
}

/// Removing a ref reports it removed, and then collects garbage where asked,
/// or reports it not found and stops there.
pub fn rm_outcome(removed: bool, run_gc: bool) -> (r: RmOutcome)
    ensures
        r == (if removed {
            RmOutcome::Removed { run_gc }
        } else {
            RmOutcome::NotFound
        }),
{
    if removed {
        RmOutcome::Removed { run_gc }
    } else {
        RmOutcome::NotFound
    }
}

/// The counts of an import of the legacy on-disk layout.
#[derive(Clone, Copy, PartialEq, Eq, Structural, Debug)]
pub struct LegacyImportReport {
    pub imported_dirs: u64,
    pub scanned_dirs: u64,
    pub verified_dirs: u64,
    pub replaced_refs: u64,
    pub conflicted_dirs: u64,
}

/// The sections of the report of a legacy import.
#[derive(Clone, Copy, PartialEq, Eq, Structural, Debug)]
pub enum ImportSection {
    Imported,
    Scanned,
    Verified,
    Replaced,
    /// Conflicting refs left alone; a rerun that replaces them overwrites them.
    Skipped,
}

/// One line of the report of a legacy import.
#[derive(Clone, Copy, PartialEq, Eq, Structural, Debug)]
pub struct ImportLine {
    pub section: ImportSection,
    pub count: u64,
}

/// The lines of the report of a legacy import: imported, scanned, verified
/// and replaced always; skipped conflicts only when there are some.
pub open spec fn import_legacy_lines_spec(r: LegacyImportReport) -> Seq<ImportLine> {
    seq![
        ImportLine { section: ImportSection::Imported, count: r.imported_dirs },
        ImportLine { section: ImportSection::Scanned, count: r.scanned_dirs },
        ImportLine { section: ImportSection::Verified, count: r.verified_dirs },
        ImportLine { section: ImportSection::Replaced, count: r.replaced_refs },
    ] + (if r.conflicted_dirs > 0 {
        seq![ImportLine { section: ImportSection::Skipped, count: r.conflicted_dirs }]
    } else {
        Seq::empty()
    })
}

/// The lines of the report of a legacy import, in order.
pub fn import_legacy_report_lines(r: LegacyImportReport) -> (lines: Vec<ImportLine>)
    ensures
        lines@ == import_legacy_lines_spec(r),
{
    let mut out: Vec<ImportLine> = Vec::new();
    out.push(ImportLine { section: ImportSection::Imported, count: r.imported_dirs });
    out.push(ImportLine { section: ImportSection::Scanned, count: r.scanned_dirs });
    out.push(ImportLine { section: ImportSection::Verified, count: r.verified_dirs });
    out.push(ImportLine { section: ImportSection::Replaced, count: r.replaced_refs });
    if r.conflicted_dirs > 0 {
        out.push(ImportLine { section: ImportSection::Skipped, count: r.conflicted_dirs });
    }
    assert(out@ =~= import_legacy_lines_spec(r));
    out
}

} // verus!
