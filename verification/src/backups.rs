//! Settings backups: how they are named, recognised, ordered and rotated.
//! The directory listing, copying and removal are the caller's.

use vstd::prelude::*;
use crate::paths::{file_name_extension, last_dot, path_extension, path_extension_of, plain_file_name};
use crate::text::{
    append_chars, chars_equal, chars_of, contains_chars, decimal_chars, decimal_digits,
    digit_table, has_infix, occurs_at, string_from_chars,
};

verus! {

/// Folder, inside the application data directory, that holds the settings.
pub const SETTINGS_DIR_NAME: &'static str = "KActiveWindowLauncher";

/// File name of the main settings file.
pub const SETTINGS_FILE_NAME: &'static str = "settings.json";

/// Number of backup generations kept.
pub const BACKUP_GENERATIONS: usize = 5;

/// A file found in the settings directory.
#[derive(Debug)]
pub struct BackupEntry {
    /// The file's name (its last path component).
    pub file_name: String,
    /// Its modification time in nanoseconds since the Unix epoch
    /// (`file_modified_time` of what the file system reported).
    pub modified: i128,
}

/// The modification time to sort by: the reported one, or the Unix epoch
/// when none could be read.
pub fn file_modified_time(modified: Option<i128>) -> (t: i128)
    ensures
        t == (match modified {
            Some(m) => m,
            None => 0,
        }),
{
    match modified {
        Some(m) => m,
        None => 0,
    }
}

/// A file name is a backup's: its extension (as std's `Path::extension`
/// finds it) is `json` and it contains `settings_backup_`.
pub open spec fn backup_name_rule(name: Seq<char>) -> bool {
    path_extension_of(name) == Some("json"@) && has_infix(name, "settings_backup_"@)
}

/// A backup name by std's documented extension rule: a plain file name
/// with extension `json` that contains `settings_backup_`.
pub open spec fn documented_backup_name(name: Seq<char>) -> bool {
    plain_file_name(name) && file_name_extension(name) == Some("json"@) && has_infix(
        name,
        "settings_backup_"@,
    )
}

/// Whether `name`, whose extension std found to be `ext`, is the name of a
/// settings backup: the extension is exactly `json` and the name contains
/// `settings_backup_`.
pub fn backup_name_from_extension(name: &str, ext: Option<&str>) -> (r: bool)
    ensures
        r == ((match ext {
            Some(e) => Some(e@),
            None => None,
        }) == Some("json"@) && has_infix(name@, "settings_backup_"@)),
{
    let json = match ext {
        Some(e) => chars_equal(&chars_of(e), &chars_of("json")),
        None => false,
    };
    json && contains_chars(&chars_of(name), &chars_of("settings_backup_"))
}

/// Whether `name` is the name of a settings backup.
pub fn is_backup_file_name(name: &str) -> (r: bool)
    ensures
        r == backup_name_rule(name@),
        documented_backup_name(name@) ==> r,
{
    let ext = path_extension(name);
    match ext {
        Some(e) => backup_name_from_extension(name, Some(e.as_str())),
        None => backup_name_from_extension(name, None),
    }
}

/// The name of the backup written at `unix_ms` milliseconds since the epoch.
pub open spec fn backup_name_of(unix_ms: nat) -> Seq<char> {
    "settings_backup_"@ + decimal_digits(unix_ms) + ".json"@
}

/// The file name of a backup taken at `unix_ms` milliseconds since the
/// Unix epoch: `settings_backup_<unix_ms>.json`.
pub fn backup_file_name(unix_ms: u128) -> (name: String)
    ensures
        name@ == backup_name_of(unix_ms as nat),
{
    let mut v = chars_of("settings_backup_");
    let digits = decimal_chars(unix_ms);
    append_chars(&mut v, &digits);
    let tail = chars_of(".json");
    append_chars(&mut v, &tail);
    string_from_chars(&v)
}

/// Every character of a decimal notation is a digit.
pub proof fn lemma_decimal_digits_are_digits(n: nat)
    ensures
        forall|i: int|
            0 <= i < decimal_digits(n).len() ==> '0' <= #[trigger] decimal_digits(n)[i] <= '9',
    decreases n,
{
    if n >= 10 {
        lemma_decimal_digits_are_digits(n / 10);
        assert(decimal_digits(n) == decimal_digits(n / 10).push(digit_table()[(n % 10) as int]));
    }
}

/// Law: every name `backup_file_name` produces is recognised as a backup
/// by `is_backup_file_name`.
pub proof fn lemma_backup_names_are_recognised(unix_ms: nat)
    ensures
        documented_backup_name(backup_name_of(unix_ms)),
{
    reveal_strlit("settings_backup_");
    reveal_strlit(".json");
    reveal_strlit("json");
    reveal_strlit(".");
    reveal_strlit("..");
    let p = "settings_backup_"@;
    let d = decimal_digits(unix_ms);
    let name = backup_name_of(unix_ms);
    lemma_decimal_digits_are_digits(unix_ms);
    assert(name.len() == p.len() + d.len() + 5);
    assert forall|i: int| 0 <= i < name.len() implies #[trigger] name[i] != '/' && name[i] != '\\'
        && name[i] != ':' by {
        if i < p.len() {
            assert(name[i] == p[i]);
        } else if i < p.len() + d.len() {
            assert(name[i] == d[i - p.len()]);
        } else {
            assert(name[i] == ".json"@[i - p.len() - d.len()]);
        }
    }
    assert(name != "."@);
    assert(name != ".."@);
    let n = name.len() as int;
    assert(name.drop_last().drop_last().drop_last().drop_last() =~= name.subrange(0, n - 4));
    assert(last_dot(name.subrange(0, n - 4)) == n - 5);
    assert(last_dot(name.drop_last().drop_last().drop_last()) == n - 5);
    assert(last_dot(name.drop_last().drop_last()) == n - 5);
    assert(last_dot(name.drop_last()) == n - 5);
    assert(last_dot(name) == n - 5);
    assert(name.subrange(n - 4, n) =~= "json"@);
    assert(occurs_at(name, p, 0)) by {
        assert(name.subrange(0, p.len() as int) =~= p);
    }
}

/// `a` comes before `b` in the backup order: newer first, and among
/// equally old files the one listed first.
pub open spec fn newer_first(es: Seq<BackupEntry>, a: usize, b: usize) -> bool {
    es[a as int].modified > es[b as int].modified || (es[a as int].modified
        == es[b as int].modified && a < b)
}

/// `order` lists exactly the backups among `es`, newest first.
pub open spec fn is_backup_order(es: Seq<BackupEntry>, order: Seq<usize>) -> bool {
    &&& forall|i: int|
        0 <= i < order.len() ==> (#[trigger] order[i] as int) < es.len() && backup_name_rule(
            es[order[i] as int].file_name@,
        )
    &&& forall|j: int|
        0 <= j < es.len() && backup_name_rule(#[trigger] es[j].file_name@) ==> order.contains(
            j as usize,
        )
    &&& forall|i: int, k: int|
        0 <= i < k < order.len() ==> newer_first(es, #[trigger] order[i], #[trigger] order[k])
}

/// The positions in `entries` of the backups, newest first (by
/// modification time; equally old ones in listing order).
pub fn backup_file_paths(entries: &Vec<BackupEntry>) -> (order: Vec<usize>)
    ensures
        is_backup_order(entries@, order@),
{
    let mut order: Vec<usize> = Vec::new();
    let mut j: usize = 0;
    while j < entries.len()
        invariant
            j <= entries.len(),
            forall|i: int|
                0 <= i < order@.len() ==> (#[trigger] order@[i] as int) < j && backup_name_rule(
                    entries@[order@[i] as int].file_name@,
                ),
            forall|m: int|
                0 <= m < j && backup_name_rule(#[trigger] entries@[m].file_name@)
                    ==> order@.contains(m as usize),
            forall|i: int, k: int|
                0 <= i < k < order@.len() ==> newer_first(
                    entries@,
                    #[trigger] order@[i],
                    #[trigger] order@[k],
                ),
        decreases entries.len() - j,
    {
        if is_backup_file_name(entries[j].file_name.as_str()) {
            let t = entries[j].modified;
            let mut p: usize = 0;
            while p < order.len() && entries[order[p]].modified >= t
                invariant
                    j < entries.len(),
                    t == entries@[j as int].modified,
                    p <= order@.len(),
                    forall|i: int| 0 <= i < order@.len() ==> (#[trigger] order@[i] as int) < j,
                    forall|i: int|
                        0 <= i < p ==> entries@[#[trigger] order@[i] as int].modified >= t,
                decreases order.len() - p,
            {
                p = p + 1;
            }
            let ghost before = order@;
            order.insert(p, j);
            proof {
                assert forall|i: int| 0 <= i < order@.len() implies (#[trigger] order@[i] as int)
                    < j + 1 && backup_name_rule(entries@[order@[i] as int].file_name@) by {
                    if i < p {
                        assert(order@[i] == before[i]);
                    } else if i > p {
                        assert(order@[i] == before[i - 1]);
                    }
                }
                assert forall|m: int|
                    0 <= m < j + 1 && backup_name_rule(
                        #[trigger] entries@[m].file_name@,
                    ) implies order@.contains(m as usize) by {
                    if m == j {
                        assert(order@[p as int] == j);
                    } else {
                        let q = choose|q: int| 0 <= q < before.len() && before[q] == m as usize;
                        if q < p {
                            assert(order@[q] == before[q]);
                        } else {
                            assert(order@[q + 1] == before[q]);
                        }
                    }
                }
                assert forall|i: int, k: int| 0 <= i < k < order@.len() implies newer_first(
                    entries@,
                    #[trigger] order@[i],
                    #[trigger] order@[k],
                ) by {
                    if k < p {
                        assert(order@[i] == before[i] && order@[k] == before[k]);
                    } else if k == p {
                        assert(order@[i] == before[i]);
                    } else if i > p {
                        assert(order@[i] == before[i - 1] && order@[k] == before[k - 1]);
                    } else if i == p {
                        assert(order@[k] == before[k - 1]);
                        assert(p < before.len());
                        assert(entries@[before[p as int] as int].modified < t);
                        if k - 1 > p {
                            assert(newer_first(entries@, before[p as int], before[k - 1]));
                        }
                    } else {
                        assert(order@[i] == before[i] && order@[k] == before[k - 1]);
                    }
                }
            }
        }
        j = j + 1;
    }
    order
}

/// Which backups to keep and which to remove so that at most
/// `BACKUP_GENERATIONS` remain: `keep` then `remove` list the backups
/// newest first, and `keep` holds the newest `BACKUP_GENERATIONS` (all of
/// them when there are fewer).
pub fn plan_backup_rotation(entries: &Vec<BackupEntry>) -> (plan: (Vec<usize>, Vec<usize>))
    ensures
        is_backup_order(entries@, plan.0@ + plan.1@),
        plan.0@.len() == (if plan.0@.len() + plan.1@.len() < BACKUP_GENERATIONS {
            plan.0@.len() + plan.1@.len()
        } else {
            BACKUP_GENERATIONS as nat
        }),
{
    let order = backup_file_paths(entries);
    let mut keep: Vec<usize> = Vec::new();
    let mut remove: Vec<usize> = Vec::new();
    let mut i: usize = 0;
    while i < order.len()
        invariant
            i <= order@.len(),
            keep@ + remove@ == order@.subrange(0, i as int),
            keep@.len() == (if i < BACKUP_GENERATIONS {
                i as int
            } else {
                BACKUP_GENERATIONS as int
            }),
            keep@.len() < BACKUP_GENERATIONS ==> remove@.len() == 0,
        decreases order.len() - i,
    {
        let ghost prefix = order@.subrange(0, i as int);
        assert(order@.subrange(0, i + 1) =~= prefix.push(order@[i as int]));
        if keep.len() < BACKUP_GENERATIONS {
            assert(remove@ =~= Seq::<usize>::empty());
            keep.push(order[i]);
            assert(keep@ + remove@ =~= prefix.push(order@[i as int]));
        } else {
            remove.push(order[i]);
            assert(keep@ + remove@ =~= prefix.push(order@[i as int]));
        }
        i = i + 1;
    }
    assert(order@.subrange(0, order@.len() as int) =~= order@);
    (keep, remove)
}

/// Law (rotation): at most `BACKUP_GENERATIONS` backups remain, none older
/// than a removed one, and nothing is removed while no more than
/// `BACKUP_GENERATIONS` exist.
pub proof fn lemma_rotation_keeps_newest(es: Seq<BackupEntry>, keep: Seq<usize>, remove: Seq<usize>)
    requires
        is_backup_order(es, keep + remove),
        keep.len() == (if keep.len() + remove.len() < BACKUP_GENERATIONS {
            keep.len() + remove.len()
        } else {
            BACKUP_GENERATIONS as nat
        }),
    ensures
        keep.len() <= BACKUP_GENERATIONS,
        keep.len() + remove.len() <= BACKUP_GENERATIONS ==> remove.len() == 0,
        forall|a: int, b: int|
            0 <= a < keep.len() && 0 <= b < remove.len() ==> es[#[trigger] keep[a] as int].modified
                >= es[#[trigger] remove[b] as int].modified,
{
    let all = keep + remove;
    assert forall|a: int, b: int|
        0 <= a < keep.len() && 0 <= b < remove.len() implies es[#[trigger] keep[a] as int].modified
        >= es[#[trigger] remove[b] as int].modified by {
        assert(all[a] == keep[a]);
        assert(all[keep.len() + b] == remove[b]);
        assert(newer_first(es, all[a], all[keep.len() + b]));
    }
}

} // verus!
