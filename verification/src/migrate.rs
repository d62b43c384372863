//! The migration engine: resolves at most one pending data-directory
//! relocation request per invocation, mutating the settings record as a side
//! effect.
//!
//! A request is moot when source and destination coincide or the source is
//! gone; it is then cleared.  Otherwise a non-empty destination is first
//! renamed to a timestamped backup sibling — the engine never silently
//! overwrites or merges into an occupied destination, and a conflict whose
//! backup cannot be made fails the whole migration — and the source is
//! moved in, by rename or by the copy-and-delete fallback.  Only on success
//! (or mootness) is the request cleared; a failed backup or move keeps it
//! pending for the next launch and makes the source directory the
//! authoritative location for this run.

use vstd::prelude::*;
use crate::disk::Disk;
use crate::settings::AppSettings;
use crate::text::dec_digits;

verus! {

/// The index of the last `/` in `s`, or `-1` if there is none.
pub open spec fn last_slash(s: Seq<char>) -> int
    decreases s.len(),
{
    if s.len() == 0 {
        -1
    } else if s[s.len() - 1] == '/' {
        s.len() - 1
    } else {
        last_slash(s.drop_last())
    }
}

proof fn lemma_last_slash(s: Seq<char>)
    ensures
        last_slash(s) >= -1,
        last_slash(s) == -1 ==> forall|j: int| 0 <= j < s.len() ==> s[j] != '/',
        last_slash(s) >= 0 ==> last_slash(s) < s.len() && s[last_slash(s)] == '/' && forall|j: int|
            last_slash(s) < j < s.len() ==> s[j] != '/',
    decreases s.len(),
{
    if s.len() > 0 && s[s.len() - 1] != '/' {
        lemma_last_slash(s.drop_last());
        assert forall|j: int| last_slash(s) < j < s.len() implies s[j] != '/' by {
            if j < s.len() - 1 {
                assert(s.drop_last()[j] == s[j]);
            }
        }
        if last_slash(s) == -1 {
            assert forall|j: int| 0 <= j < s.len() implies s[j] != '/' by {
                if j < s.len() - 1 {
                    assert(s.drop_last()[j] == s[j]);
                }
            }
        }
    }
}

/// The final path component, empty when the path ends in a separator.
pub open spec fn spec_basename(s: Seq<char>) -> Seq<char> {
    s.subrange(last_slash(s) + 1, s.len() as int)
}

/// Everything before the final separator, when there is one.
pub open spec fn spec_parent(s: Seq<char>) -> Option<Seq<char>> {
    if last_slash(s) >= 0 {
        Some(s.subrange(0, last_slash(s)))
    } else {
        None
    }
}

/// The backup sibling for an occupied destination `to`:
/// `<parent>/<basename>-backup-<seconds>`, with the config root standing in
/// for a missing parent and `data` for a missing basename.
pub open spec fn spec_backup_path(config_root: Seq<char>, to: Seq<char>, now: nat) -> Seq<char> {
    (match spec_parent(to) {
        Some(p) => p,
        None => config_root,
    }) + "/"@ + (if spec_basename(to).len() == 0 {
        "data"@
    } else {
        spec_basename(to)
    }) + "-backup-"@ + dec_digits(now)
}

fn find_last_slash(p: &str) -> (r: Option<usize>)
    ensures
        match r {
            Some(i) => i < p@.len() && i as int == last_slash(p@),
            None => last_slash(p@) == -1,
        },
{
    let n = p.unicode_len();
    let mut i = n;
    while i > 0
        invariant
            i <= n,
            n == p@.len(),
            forall|j: int| i <= j < n ==> p@[j] != '/',
        decreases i,
    {
        if p.get_char(i - 1) == '/' {
            proof {
                lemma_last_slash(p@);
                let ls = last_slash(p@);
                if ls > i - 1 {
                    assert(p@[ls] != '/');
                }
                if ls < i - 1 {
                    assert(p@[i - 1] != '/');
                }
            }
            return Some(i - 1);
        }
        i = i - 1;
    }
    proof {
        lemma_last_slash(p@);
        let ls = last_slash(p@);
        if ls >= 0 {
            assert(p@[ls] != '/');
        }
    }
    None
}

/// Everything before the final `/`, when the path contains one.
pub fn parent_path(p: &String) -> (r: Option<String>)
    ensures
        match r {
            Some(par) => spec_parent(p@) == Some(par@),
            None => spec_parent(p@) is None,
        },
{
    match find_last_slash(p.as_str()) {
        Some(i) => Some(p.as_str().substring_char(0, i).to_owned()),
        None => None,
    }
}

/// Builds the backup sibling path for an occupied destination.
pub fn backup_path(config_root: &String, to: &String, now_secs: u64) -> (r: String)
    ensures
        r@ == spec_backup_path(config_root@, to@, now_secs as nat),
{
    let n = to.as_str().unicode_len();
    let (parent, name) = match find_last_slash(to.as_str()) {
        Some(i) => (
            to.as_str().substring_char(0, i).to_owned(),
            to.as_str().substring_char(i + 1, n).to_owned(),
        ),
        None => (config_root.clone(), to.clone()),
    };
    proof {
        if last_slash(to@) == -1 {
            assert(to@.subrange(0, to@.len() as int) =~= to@);
        }
    }
    let mut r = parent;
    r.append("/");
    if name.as_str().unicode_len() == 0 {
        r.append("data");
    } else {
        r.append(name.as_str());
    }
    r.append("-backup-");
    let digits = crate::text::u64_to_string(now_secs);
    r.append(digits.as_str());
    proof {
        assert(r@ =~= spec_backup_path(config_root@, to@, now_secs as nat));
    }
    r
}

/// How one invocation of the engine resolved.
pub enum MigrationOutcome {
    /// No request was pending; nothing was touched.
    NoRequest,
    /// The request was moot (same path, or the source is gone): it was
    /// cleared, and the settings record must be persisted.
    Cleared,
    /// The data directory was relocated: the request was cleared, and the
    /// settings record must be persisted.
    Migrated,
    /// The move failed.  The request stays pending for the next launch, and
    /// `use_dir` — the original source — is the data directory for this run.
    Failed { use_dir: String },
}

impl MigrationOutcome {
    /// The data-directory override this run must use, if any.
    pub open spec fn spec_override(self) -> Option<Seq<char>> {
        match self {
            MigrationOutcome::Failed { use_dir } => Some(use_dir@),
            _ => None,
        }
    }

    /// Whether the settings record changed and must be persisted.
    pub open spec fn spec_needs_save(self) -> bool {
        self is Cleared || self is Migrated
    }
}

/// Whether the conflict backup cannot be made: the destination is occupied
/// and the rename to the backup sibling is refused (a protected path, or a
/// sibling already occupied).  The engine then fails rather than overwrite
/// or merge into the occupied destination.
pub open spec fn spec_backup_blocked(d: Disk, t: Seq<char>, b: Seq<char>) -> bool {
    d.has_dir(t) && d.files_of(t).len() > 0 && !(!d.is_protected(t) && !d.is_protected(b) && (t
        == b || !d.has_dir(b) || d.files_of(b).len() == 0))
}

/// What the disk looks like after the backup rename, on the paths where the
/// engine goes on: an occupied destination was renamed to the backup
/// sibling, and otherwise nothing happened.
pub open spec fn backup_step(
    d0: Disk,
    d1: Disk,
    config_root: Seq<char>,
    t: Seq<char>,
    now: nat,
) -> bool {
    let b = spec_backup_path(config_root, t, now);
    if d0.has_dir(t) && d0.files_of(t).len() > 0 {
        &&& !d0.is_protected(t)
        &&& !d0.is_protected(b)
        &&& (t == b || !d0.has_dir(b) || d0.files_of(b).len() == 0)
        &&& d1.wf()
        &&& d1.has_dir(b)
        &&& d1.files_of(b) == d0.files_of(t)
        &&& (t != b ==> !d1.has_dir(t))
        &&& d0.untouched_except2(d1, t, b)
        &&& d1.protected == d0.protected
    } else {
        d1 == d0
    }
}

/// What the disk looks like after ensuring the destination's parent exists.
pub open spec fn parent_step(d1: Disk, d2: Disk, t: Seq<char>) -> bool {
    match spec_parent(t) {
        None => d2 == d1,
        Some(p) => {
            &&& d2.wf()
            &&& (d1.has_dir(p) || d1.is_protected(p) ==> d2 == d1)
            &&& (!d1.has_dir(p) && !d1.is_protected(p) ==> d2.has_dir(p) && d2.files_of(p).len()
                == 0)
            &&& d1.untouched_except2(d2, p, p)
            &&& d2.protected == d1.protected
        },
    }
}

proof fn lemma_source_survives_prep(
    d0: Disk,
    d1: Disk,
    d2: Disk,
    config_root: Seq<char>,
    f: Seq<char>,
    t: Seq<char>,
    now: nat,
)
    requires
        f != t,
        d0.has_dir(f),
        backup_step(d0, d1, config_root, t, now),
        parent_step(d1, d2, t),
    ensures
        d1.has_dir(f),
        d2.has_dir(f),
        d2.is_protected(f) == d0.is_protected(f),
        d2.is_protected(t) == d0.is_protected(t),
        spec_backup_path(config_root, t, now) != f ==> d1.files_of(f) == d0.files_of(f)
            && d2.files_of(f) == d0.files_of(f),
        !spec_backup_blocked(d0, t, spec_backup_path(config_root, t, now)),
{
    let b = spec_backup_path(config_root, t, now);
    if d0.has_dir(t) && d0.files_of(t).len() > 0 {
        if b == f {
            assert(d1.has_dir(f));
        } else {
            assert(d0.untouched_except2(d1, t, b));
            assert(f != t && f != b);
            assert(d1.has_dir(f) == d0.has_dir(f));
            assert(d1.files_of(f) == d0.files_of(f));
        }
    }
    match spec_parent(t) {
        None => {},
        Some(p) => {
            if d1.has_dir(p) || d1.is_protected(p) {
            } else {
                assert(p != f);
                assert(d1.untouched_except2(d2, p, p));
                assert(d2.has_dir(f) == d1.has_dir(f));
                assert(d1.has_dir(f) ==> d2.files_of(f) == d1.files_of(f));
            }
        },
    }
}

/// Chains the frames of the two preparation steps: off the destination, the
/// backup sibling and the destination's parent, nothing moves.
proof fn lemma_prep_frame(
    d0: Disk,
    d1: Disk,
    d2: Disk,
    config_root: Seq<char>,
    t: Seq<char>,
    now: nat,
)
    requires
        backup_step(d0, d1, config_root, t, now),
        parent_step(d1, d2, t),
    ensures
        forall|q: Seq<char>|
            q != t && q != spec_backup_path(config_root, t, now) && spec_parent(t) != Some(q) ==> (
            #[trigger] d2.has_dir(q) == d0.has_dir(q)) && (d0.has_dir(q) ==> d2.files_of(q)
                == d0.files_of(q)),
{
    let b = spec_backup_path(config_root, t, now);
    assert forall|q: Seq<char>|
        q != t && q != b && spec_parent(t) != Some(q) implies (d2.has_dir(q) == d0.has_dir(q)) && (
    d0.has_dir(q) ==> d2.files_of(q) == d0.files_of(q)) by {
        if d0.has_dir(t) && d0.files_of(t).len() > 0 {
            assert(d0.untouched_except2(d1, t, b));
            assert(d1.has_dir(q) == d0.has_dir(q));
            assert(d0.has_dir(q) ==> d1.files_of(q) == d0.files_of(q));
        } else {
            assert(d1 == d0);
        }
        match spec_parent(t) {
            None => {
                assert(d2 == d1);
            },
            Some(p) => {
                if d1.has_dir(p) || d1.is_protected(p) {
                    assert(d2 == d1);
                } else {
                    assert(q != p);
                    assert(d1.untouched_except2(d2, p, p));
                    assert(d2.has_dir(q) == d1.has_dir(q));
                    assert(d1.has_dir(q) ==> d2.files_of(q) == d1.files_of(q));
                }
            },
        }
    }
}

/// Resolves the pending migration request, if any, against the disk.
///
/// The request is cleared exactly when it resolves (by success or by being
/// moot), so no request is ever processed twice; a failed backup or move
/// leaves it in place and names the source directory as this run's
/// override.
#[verifier::rlimit(100)]
#[verifier::spinoff_prover]
pub fn apply_pending_migration(
    config_root: &String,
    settings: &mut AppSettings,
    disk: &mut Disk,
    now_secs: u64,
) -> (r: MigrationOutcome)
    requires
        old(disk).wf(),
    ensures
        final(disk).wf(),
        final(disk).protected == old(disk).protected,
        r is NoRequest <==> old(settings).migration_req() is None,
        r.spec_needs_save() ==> *final(settings) == old(settings).with_migration_cleared(),
        !(r is Failed) ==> final(settings).migration_req() is None,
        match old(settings).migration_req() {
            None => *final(settings) == *old(settings) && *final(disk) == *old(disk),
            Some((f, t)) => {
                let b = spec_backup_path(config_root@, t, now_secs as nat);
                let moot = f == t || !old(disk).has_dir(f);
                &&& (moot ==> r is Cleared && *final(disk) == *old(disk))
                &&& (!moot ==> {
                    // the migration fails exactly when a protected source or
                    // destination blocks the move, or when an occupied
                    // destination cannot be backed up; the request then
                    // stays pending, the source survives with its contents,
                    // and it is the override for this run
                    &&& (r is Failed <==> old(disk).is_protected(f) || old(disk).is_protected(t)
                        || spec_backup_blocked(*old(disk), t, b))
                    &&& (r is Failed ==> *final(settings) == *old(settings) && r.spec_override()
                        == Some(f) && final(disk).has_dir(f) && final(disk).files_of(f)
                        == old(disk).files_of(f))
                    // an occupied destination that cannot be backed up is
                    // never overwritten or merged into: nothing happens
                    &&& (spec_backup_blocked(*old(disk), t, b) ==> *final(disk) == *old(disk))
                    &&& (!(r is Failed) ==> r is Migrated && final(disk).has_dir(t)
                        && !final(disk).has_dir(f))
                    // an empty or absent destination is simply replaced by
                    // the source's contents
                    &&& (!(r is Failed) && (!old(disk).has_dir(t) || old(disk).files_of(t).len()
                        == 0) ==> final(disk).files_of(t) == old(disk).files_of(f))
                    // an occupied destination is first renamed to the backup
                    // sibling, which then holds exactly what the destination
                    // held, while the destination ends up holding exactly
                    // what the source held
                    &&& (!(r is Failed) && old(disk).has_dir(t) && old(disk).files_of(t).len() > 0
                        && b != f ==> final(disk).has_dir(b)
                        && final(disk).files_of(b) == old(disk).files_of(t)
                        && final(disk).files_of(t) == old(disk).files_of(f))
                    // nothing off the request's paths, the backup sibling
                    // and the destination's parent is touched
                    &&& (forall|q: Seq<char>|
                        q != f && q != t && q != b && spec_parent(t) != Some(q) ==> (
                        #[trigger] final(disk).has_dir(q) == old(disk).has_dir(q))
                            && (old(disk).has_dir(q) ==> final(disk).files_of(q)
                            == old(disk).files_of(q)))
                })
            },
        },
{
    let req: Option<(String, String)> = match &settings.storage {
        Some(st) => match &st.migration {
            Some(m) => Some((m.from.clone(), m.to.clone())),
            None => None,
        },
        None => None,
    };
    match req {
        None => MigrationOutcome::NoRequest,
        Some((from, to)) => {
            if from.eq(&to) {
                crate::settings::clear_migration(settings);
                return MigrationOutcome::Cleared;
            }
            if !disk.dir_exists(&from) {
                crate::settings::clear_migration(settings);
                return MigrationOutcome::Cleared;
            }
            let ghost d0 = *disk;
            let ghost b = spec_backup_path(config_root@, to@, now_secs as nat);
            if disk.dir_exists(&to) && !disk.is_dir_empty(&to) {
                let backup = backup_path(config_root, &to, now_secs);
                if !disk.rename_dir(&to, &backup) {
                    // the conflict backup cannot be made: never overwrite or
                    // merge into an occupied destination — keep the request
                    return MigrationOutcome::Failed { use_dir: from };
                }
            }
            let ghost d1 = *disk;
            proof {
                assert(backup_step(d0, d1, config_root@, to@, now_secs as nat));
            }
            match parent_path(&to) {
                Some(parent) => {
                    let _ = disk.create_dir_all(&parent);
                },
                None => {},
            }
            let ghost d2 = *disk;
            proof {
                assert(parent_step(d1, d2, to@));
                lemma_source_survives_prep(
                    d0,
                    d1,
                    d2,
                    config_root@,
                    from@,
                    to@,
                    now_secs as nat,
                );
            }
            if disk.move_dir(&from, &to) {
                crate::settings::clear_migration(settings);
                proof {
                    lemma_apply_success(
                        d0,
                        d1,
                        d2,
                        *disk,
                        config_root@,
                        from@,
                        to@,
                        now_secs as nat,
                    );
                }
                MigrationOutcome::Migrated
            } else {
                proof {
                    lemma_apply_failure(
                        d0,
                        d1,
                        d2,
                        *disk,
                        config_root@,
                        from@,
                        to@,
                        now_secs as nat,
                    );
                }
                MigrationOutcome::Failed { use_dir: from }
            }
        },
    }
}

/// The two preparation steps and a successful move, chained: what the final
/// disk holds in terms of the original one.
proof fn lemma_apply_success(
    d0: Disk,
    d1: Disk,
    d2: Disk,
    d3: Disk,
    config_root: Seq<char>,
    f: Seq<char>,
    t: Seq<char>,
    now: nat,
)
    requires
        d0.wf(),
        f != t,
        d0.has_dir(f),
        backup_step(d0, d1, config_root, t, now),
        parent_step(d1, d2, t),
        d3.has_dir(t),
        !d3.has_dir(f),
        d3.files_of(t) == (if d2.has_dir(t) && d2.files_of(t).len() > 0 {
            d2.files_of(t)
        } else {
            Seq::<Seq<char>>::empty()
        }) + d2.files_of(f),
        d2.untouched_except2(d3, f, t),
        !d2.is_protected(f),
        !d2.is_protected(t),
    ensures
        !d0.has_dir(t) || d0.files_of(t).len() == 0 ==> d3.files_of(t) == d0.files_of(f),
        d0.has_dir(t) && d0.files_of(t).len() > 0 && spec_backup_path(config_root, t, now) != f
            ==> d3.has_dir(spec_backup_path(config_root, t, now)) && d3.files_of(
            spec_backup_path(config_root, t, now),
        ) == d0.files_of(t) && d3.files_of(t) == d0.files_of(f),
        forall|q: Seq<char>|
            q != f && q != t && q != spec_backup_path(config_root, t, now) && spec_parent(t)
                != Some(q) ==> (#[trigger] d3.has_dir(q) == d0.has_dir(q)) && (d0.has_dir(q)
                ==> d3.files_of(q) == d0.files_of(q)),
{
    let b = spec_backup_path(config_root, t, now);
    lemma_source_survives_prep(d0, d1, d2, config_root, f, t, now);
    if !d0.has_dir(t) || d0.files_of(t).len() == 0 {
        assert(d1 == d0);
        assert(d2.has_dir(t) ==> d2.files_of(t).len() == 0) by {
            lemma_parent_keeps_target(d1, d2, t);
            assert(d1.has_dir(t) ==> d1.files_of(t).len() == 0);
        }
        assert(d3.files_of(t) =~= d0.files_of(f));
    }
    if d0.has_dir(t) && d0.files_of(t).len() > 0 && b != f {
        lemma_backup_path_differs(config_root, t, now);
        assert(!d0.is_protected(t));
        assert(d1.has_dir(b) && d1.files_of(b) == d0.files_of(t) && !d1.has_dir(t));
        assert(d2.has_dir(b) && d2.files_of(b) == d0.files_of(t)) by {
            match spec_parent(t) {
                None => {
                    assert(d2 == d1);
                },
                Some(p) => {
                    if d1.has_dir(p) || d1.is_protected(p) {
                        assert(d2 == d1);
                    } else {
                        assert(p != b);
                        assert(d1.untouched_except2(d2, p, p));
                        assert(d2.has_dir(b) == d1.has_dir(b));
                        assert(d1.has_dir(b) ==> d2.files_of(b) == d1.files_of(b));
                    }
                },
            }
        }
        assert(d3.has_dir(b) && d3.files_of(b) == d0.files_of(t)) by {
            assert(b != t);
            assert(d2.untouched_except2(d3, f, t));
            assert(d3.has_dir(b) == d2.has_dir(b));
            assert(d2.has_dir(b) ==> d3.files_of(b) == d2.files_of(b));
        }
        assert(d2.has_dir(t) ==> d2.files_of(t).len() == 0) by {
            lemma_parent_keeps_target(d1, d2, t);
        }
        assert(d3.files_of(t) =~= d0.files_of(f));
    }
    lemma_prep_frame(d0, d1, d2, config_root, t, now);
    assert forall|q: Seq<char>|
        q != f && q != t && q != b && spec_parent(t) != Some(q) implies (d3.has_dir(q) == d0.has_dir(
        q,
    )) && (d0.has_dir(q) ==> d3.files_of(q) == d0.files_of(q)) by {
        assert(d2.has_dir(q) == d0.has_dir(q));
        assert(d0.has_dir(q) ==> d2.files_of(q) == d0.files_of(q));
        assert(d2.untouched_except2(d3, f, t));
        assert(d3.has_dir(q) == d2.has_dir(q));
        assert(d2.has_dir(q) ==> d3.files_of(q) == d2.files_of(q));
    }
}

/// The parent-creation step never makes the destination itself non-empty:
/// the parent is a strict prefix of the destination, and a created
/// directory is empty anyway.
proof fn lemma_parent_keeps_target(d1: Disk, d2: Disk, t: Seq<char>)
    requires
        parent_step(d1, d2, t),
        d1.has_dir(t) ==> d1.files_of(t).len() == 0,
    ensures
        d2.has_dir(t) ==> d2.files_of(t).len() == 0,
{
    match spec_parent(t) {
        None => {
            assert(d2 == d1);
        },
        Some(p) => {
            lemma_last_slash(t);
            assert(p.len() < t.len());
            if d1.has_dir(p) || d1.is_protected(p) {
                assert(d2 == d1);
            } else {
                assert(p != t);
                assert(d1.untouched_except2(d2, p, p));
                assert(d2.has_dir(t) == d1.has_dir(t));
                assert(d1.has_dir(t) ==> d2.files_of(t) == d1.files_of(t));
            }
        },
    }
}

/// A failed move, chained through the preparation steps: the source
/// survives with its contents, and the failure is pinned to protection.
proof fn lemma_apply_failure(
    d0: Disk,
    d1: Disk,
    d2: Disk,
    d3: Disk,
    config_root: Seq<char>,
    f: Seq<char>,
    t: Seq<char>,
    now: nat,
)
    requires
        d0.wf(),
        f != t,
        d0.has_dir(f),
        backup_step(d0, d1, config_root, t, now),
        parent_step(d1, d2, t),
        !(d2.has_dir(f) && !d2.is_protected(f) && !d2.is_protected(t)),
        d2.untouched_except2(d3, f, t),
        d2.has_dir(f) ==> d3.has_dir(f) && d3.files_of(f) == d2.files_of(f),
    ensures
        d0.is_protected(f) || d0.is_protected(t),
        d3.has_dir(f) && d3.files_of(f) == d0.files_of(f),
        forall|q: Seq<char>|
            q != f && q != t && q != spec_backup_path(config_root, t, now) && spec_parent(t)
                != Some(q) ==> (#[trigger] d3.has_dir(q) == d0.has_dir(q)) && (d0.has_dir(q)
                ==> d3.files_of(q) == d0.files_of(q)),
{
    let b = spec_backup_path(config_root, t, now);
    lemma_source_survives_prep(d0, d1, d2, config_root, f, t, now);
    assert(d2.files_of(f) == d0.files_of(f)) by {
        if b == f {
            // a backup rename onto the source's own path can only have
            // succeeded if neither the destination nor the source was
            // protected, in which case the move could not have failed
            if d0.has_dir(t) && d0.files_of(t).len() > 0 {
                assert(false);
            } else {
                assert(d1 == d0);
                match spec_parent(t) {
                    None => {},
                    Some(p) => {
                        if !d1.has_dir(p) && !d1.is_protected(p) {
                            assert(p != f);
                        }
                    },
                }
            }
        }
    }
    lemma_prep_frame(d0, d1, d2, config_root, t, now);
    assert forall|q: Seq<char>|
        q != f && q != t && q != b && spec_parent(t) != Some(q) implies (d3.has_dir(q) == d0.has_dir(
        q,
    )) && (d0.has_dir(q) ==> d3.files_of(q) == d0.files_of(q)) by {
        assert(d2.has_dir(q) == d0.has_dir(q));
        assert(d0.has_dir(q) ==> d2.files_of(q) == d0.files_of(q));
        assert(d2.untouched_except2(d3, f, t));
        assert(d3.has_dir(q) == d2.has_dir(q));
        assert(d2.has_dir(q) ==> d3.files_of(q) == d2.files_of(q));
    }
}

/// The backup sibling always differs from the destination itself and from
/// the destination's parent: it extends both by at least the suffix.
proof fn lemma_backup_path_differs(config_root: Seq<char>, t: Seq<char>, now: nat)
    ensures
        spec_backup_path(config_root, t, now) != t,
        spec_parent(t) != Some(spec_backup_path(config_root, t, now)),
{
    let b = spec_backup_path(config_root, t, now);
    lemma_last_slash(t);
    lemma_dec_digits_len(now);
    reveal_strlit("/");
    reveal_strlit("data");
    reveal_strlit("-backup-");
    match spec_parent(t) {
        Some(p) => {
            assert(b.len() >= p.len() + 10);
            assert(t.len() == p.len() + 1 + spec_basename(t).len());
            if spec_basename(t).len() == 0 {
                assert(b.len() == p.len() + 1 + 4 + 8 + dec_digits(now).len());
            } else {
                assert(b.len() == p.len() + 1 + spec_basename(t).len() + 8 + dec_digits(now).len());
            }
        },
        None => {
            assert(spec_basename(t) =~= t);
            if spec_basename(t).len() == 0 {
                assert(b.len() == config_root.len() + 1 + 4 + 8 + dec_digits(now).len());
            } else {
                assert(b.len() == config_root.len() + 1 + t.len() + 8 + dec_digits(now).len());
            }
        },
    }
}

proof fn lemma_dec_digits_len(n: nat)
    ensures
        dec_digits(n).len() >= 1,
    decreases n,
{
    if n >= 10 {
        lemma_dec_digits_len(n / 10);
    }
}

} // verus!
