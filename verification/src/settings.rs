//! The launcher's slot settings: the data model, its normal form and the
//! slot editing operations.

use vstd::prelude::*;
use crate::text::trimmed;
use crate::paths::{path_exists_rule, path_query_rule, disk_path_exists, path_query, DiskQuery};

verus! {

/// Number of slots the launcher bar always holds.
pub const SLOT_COUNT: usize = 64;

/// Settings format version written by this library.
pub const SETTINGS_VERSION: i32 = 1;

/// What a slot points at, and therefore how it is launched.
#[derive(Clone, Copy, Debug, PartialEq, Eq, Structural)]
pub enum DataType {
    /// No target; serialised as `none`.
    Empty,
    Folder,
    Exe,
    Script,
    Url,
    Text,
    Image,
    Doc,
    Cpl,
    OtherApp,
}

/// Colour theme of the launcher.
#[derive(Clone, Copy, Debug, PartialEq, Eq, Structural)]
pub enum Theme {
    Classic,
    Dark,
    Light,
}

/// One launcher slot.
#[derive(Debug)]
pub struct LauncherSlot {
    pub index: usize,
    pub data_type: DataType,
    pub path: String,
    pub arg: String,
    pub comment: String,
    pub exist: bool,
}

/// The whole persisted settings.
#[derive(Debug)]
pub struct LauncherSettings {
    pub version: i32,
    pub theme: Theme,
    pub slots: Vec<LauncherSlot>,
}

/// Why a slot command was refused.
#[derive(Clone, Copy, Debug, PartialEq, Eq, Structural)]
pub enum CommandError {
    /// A slot number outside the slots that exist.
    SlotOutOfRange,
    /// The slot to run does not exist.
    SlotMissing,
    /// The slot is empty or its target is gone.
    NothingToExecute,
}

impl CommandError {
    /// The message shown to the user.
    pub fn message(&self) -> (m: String)
        ensures
            *self == CommandError::SlotOutOfRange ==> m@ == "スロット番号が範囲外です"@,
            *self == CommandError::SlotMissing ==> m@ == "スロットが存在しません"@,
            *self == CommandError::NothingToExecute ==> m@ == "実行可能な対象がありません"@,
    {
        match self {
            CommandError::SlotOutOfRange => String::from_str("スロット番号が範囲外です"),
            CommandError::SlotMissing => String::from_str("スロットが存在しません"),
            CommandError::NothingToExecute => String::from_str("実行可能な対象がありません"),
        }
    }
}

impl LauncherSlot {
    /// A field-by-field copy of the slot.
    pub fn duplicate(&self) -> (r: LauncherSlot)
        ensures
            r == *self,
    {
        LauncherSlot {
            index: self.index,
            data_type: self.data_type,
            path: self.path.clone(),
            arg: self.arg.clone(),
            comment: self.comment.clone(),
            exist: self.exist,
        }
    }
}

/// The theme used when the settings name none.
pub fn default_theme() -> (t: Theme)
    ensures
        t == Theme::Classic,
{
    Theme::Classic
}

/// `s` is the empty slot at position `index`.
pub open spec fn is_empty_slot(s: LauncherSlot, index: int) -> bool {
    &&& s.index == index
    &&& s.data_type == DataType::Empty
    &&& s.path@ == Seq::<char>::empty()
    &&& s.arg@ == Seq::<char>::empty()
    &&& s.comment@ == Seq::<char>::empty()
    &&& !s.exist
}

/// `r` is `s` moved to position `index`, with `exist` recomputed as `exist`.
pub open spec fn is_placed_slot(r: LauncherSlot, s: LauncherSlot, index: int, exist: bool) -> bool {
    &&& r.index == index
    &&& r.data_type == s.data_type
    &&& r.path == s.path
    &&& r.arg == s.arg
    &&& r.comment == s.comment
    &&& r.exist == exist
}

/// Every slot's `index` is its position.
pub open spec fn indices_match_positions(slots: Seq<LauncherSlot>) -> bool {
    forall|i: int| 0 <= i < slots.len() ==> #[trigger] slots[i].index == i
}

/// The settings are in normal form: current version, exactly
/// `SLOT_COUNT` slots, each slot numbered by its position.
pub open spec fn is_normal(s: LauncherSettings) -> bool {
    &&& s.version == SETTINGS_VERSION
    &&& s.slots@.len() == SLOT_COUNT
    &&& indices_match_positions(s.slots@)
}

/// How many of the given slots the normal form keeps.
pub open spec fn kept_count(n: nat) -> nat {
    if n < SLOT_COUNT {
        n
    } else {
        SLOT_COUNT as nat
    }
}

/// The empty slot at position `index`.
pub fn empty_slot(index: usize) -> (s: LauncherSlot)
    ensures
        is_empty_slot(s, index as int),
{
    LauncherSlot {
        index,
        data_type: DataType::Empty,
        path: String::new(),
        arg: String::new(),
        comment: String::new(),
        exist: false,
    }
}

/// The settings used when nothing could be loaded: current version,
/// classic theme, `SLOT_COUNT` empty slots.
pub fn default_settings() -> (s: LauncherSettings)
    ensures
        s.version == SETTINGS_VERSION,
        s.theme == Theme::Classic,
        s.slots@.len() == SLOT_COUNT,
        forall|i: int| 0 <= i < SLOT_COUNT ==> is_empty_slot(#[trigger] s.slots@[i], i),
{
    let mut slots: Vec<LauncherSlot> = Vec::new();
    let mut i: usize = 0;
    while i < SLOT_COUNT
        invariant
            i <= SLOT_COUNT,
            slots@.len() == i,
            forall|k: int| 0 <= k < i ==> is_empty_slot(#[trigger] slots@[k], k),
        decreases SLOT_COUNT - i,
    {
        slots.push(empty_slot(i));
        i = i + 1;
    }
    LauncherSettings { version: SETTINGS_VERSION, theme: Theme::Classic, slots }
}

/// The disk questions whose answers `normalize_settings` needs: one per
/// kept slot, the one `path_query` asks for that slot.
pub fn normalize_queries(settings: &LauncherSettings) -> (q: Vec<Option<DiskQuery>>)
    ensures
        q@.len() == kept_count(settings.slots@.len()),
        forall|i: int|
            0 <= i < q@.len() ==> path_query_rule(
                #[trigger] q@[i],
                settings.slots@[i].path@,
                settings.slots@[i].data_type,
            ),
{
    let n = if settings.slots.len() < SLOT_COUNT {
        settings.slots.len()
    } else {
        SLOT_COUNT
    };
    let mut q: Vec<Option<DiskQuery>> = Vec::new();
    let mut i: usize = 0;
    while i < n
        invariant
            n == kept_count(settings.slots@.len()),
            n <= settings.slots@.len(),
            i <= n,
            q@.len() == i,
            forall|k: int|
                0 <= k < i ==> path_query_rule(
                    #[trigger] q@[k],
                    settings.slots@[k].path@,
                    settings.slots@[k].data_type,
                ),
        decreases n - i,
    {
        let slot = &settings.slots[i];
        q.push(path_query(slot.path.as_str(), &slot.data_type));
        i = i + 1;
    }
    q
}

/// `r` is the normal form of `s` given the disk answers `on_disk`: current
/// version, the theme kept, exactly `SLOT_COUNT` slots, slot `i` the given
/// slot `i` moved to position `i` with `exist` decided by `path_exists_rule`
/// on `on_disk[i]`, or the empty slot where none was given.
pub open spec fn normal_form_of(s: LauncherSettings, on_disk: Seq<bool>, r: LauncherSettings) -> bool {
    &&& is_normal(r)
    &&& r.theme == s.theme
    &&& forall|i: int|
        0 <= i < SLOT_COUNT ==> if i < s.slots@.len() {
            is_placed_slot(
                #[trigger] r.slots@[i],
                s.slots@[i],
                i,
                path_exists_rule(s.slots@[i].path@, s.slots@[i].data_type, on_disk[i]),
            )
        } else {
            is_empty_slot(r.slots@[i], i)
        }
}

/// Brings settings into normal form: version `SETTINGS_VERSION`, the theme
/// kept, exactly `SLOT_COUNT` slots; slot `i` is the given slot `i` moved to
/// position `i` with `exist` recomputed from `on_disk[i]` (the answer to
/// `normalize_queries(settings)[i]`), or the empty slot where none was given.
pub fn normalize_settings(settings: LauncherSettings, on_disk: &Vec<bool>) -> (r: LauncherSettings)
    requires
        on_disk@.len() >= kept_count(settings.slots@.len()),
    ensures
        normal_form_of(settings, on_disk@, r),
{
    let mut slots: Vec<LauncherSlot> = Vec::new();
    let mut i: usize = 0;
    while i < SLOT_COUNT
        invariant
            i <= SLOT_COUNT,
            on_disk@.len() >= kept_count(settings.slots@.len()),
            slots@.len() == i,
            forall|k: int|
                0 <= k < i ==> if k < settings.slots@.len() {
                    is_placed_slot(
                        #[trigger] slots@[k],
                        settings.slots@[k],
                        k,
                        path_exists_rule(
                            settings.slots@[k].path@,
                            settings.slots@[k].data_type,
                            on_disk@[k],
                        ),
                    )
                } else {
                    is_empty_slot(slots@[k], k)
                },
        decreases SLOT_COUNT - i,
    {
        if i < settings.slots.len() {
            let slot = &settings.slots[i];
            let exist = disk_path_exists(slot.path.as_str(), &slot.data_type, on_disk[i]);
            slots.push(
                LauncherSlot {
                    index: i,
                    data_type: slot.data_type,
                    path: slot.path.clone(),
                    arg: slot.arg.clone(),
                    comment: slot.comment.clone(),
                    exist,
                },
            );
        } else {
            slots.push(empty_slot(i));
        }
        i = i + 1;
    }
    LauncherSettings { version: SETTINGS_VERSION, theme: settings.theme, slots }
}

} // verus!

verus! {

/// `s` moved to position `index` with its `exist` flag set to `exist`.
pub open spec fn placed(s: LauncherSlot, index: usize, exist: bool) -> LauncherSlot {
    LauncherSlot { index: index, exist: exist, ..s }
}

/// The slots after exchanging positions `lhs` and `rhs`; each of the two
/// slots takes the number of its new position.
pub open spec fn swap_rule(slots: Seq<LauncherSlot>, lhs: usize, rhs: usize) -> Seq<LauncherSlot> {
    slots.update(lhs as int, placed(slots[rhs as int], lhs, slots[rhs as int].exist)).update(
        rhs as int,
        placed(slots[lhs as int], rhs, slots[lhs as int].exist),
    )
}

/// Exchanges slots `lhs` and `rhs`.  Refused with `SlotOutOfRange` unless
/// both name an existing slot; the two slots are renumbered after their new
/// positions, so that every slot's `index` stays its position.
pub fn slot_swap(settings: LauncherSettings, lhs: usize, rhs: usize) -> (r: Result<
    LauncherSettings,
    CommandError,
>)
    ensures
        (lhs < settings.slots@.len() && rhs < settings.slots@.len()) <==> r is Ok,
        r is Err ==> r == Err::<LauncherSettings, CommandError>(CommandError::SlotOutOfRange),
        r matches Ok(s) ==> {
            &&& s.version == settings.version
            &&& s.theme == settings.theme
            &&& s.slots@ == swap_rule(settings.slots@, lhs, rhs)
        },
{
    if lhs >= settings.slots.len() || rhs >= settings.slots.len() {
        return Err(CommandError::SlotOutOfRange);
    }
    let mut settings = settings;
    let a = settings.slots[lhs].duplicate();
    let b = settings.slots[rhs].duplicate();
    let a_exist = a.exist;
    let b_exist = b.exist;
    settings.slots.set(lhs, LauncherSlot { index: lhs, exist: b_exist, ..b });
    settings.slots.set(rhs, LauncherSlot { index: rhs, exist: a_exist, ..a });
    Ok(settings)
}

/// Stores `slot` at the position its `index` names, with `exist`
/// recomputed from `on_disk`, the answer to
/// `path_query(slot.path, slot.data_type)`.  Refused with `SlotOutOfRange`
/// when no slot has that index.
pub fn slot_update(settings: LauncherSettings, slot: LauncherSlot, on_disk: bool) -> (r: Result<
    LauncherSettings,
    CommandError,
>)
    ensures
        (slot.index < settings.slots@.len()) <==> r is Ok,
        r is Err ==> r == Err::<LauncherSettings, CommandError>(CommandError::SlotOutOfRange),
        r matches Ok(s) ==> {
            &&& s.version == settings.version
            &&& s.theme == settings.theme
            &&& s.slots@ == settings.slots@.update(
                slot.index as int,
                placed(slot, slot.index, path_exists_rule(slot.path@, slot.data_type, on_disk)),
            )
        },
{
    let index = slot.index;
    if index >= settings.slots.len() {
        return Err(CommandError::SlotOutOfRange);
    }
    let exist = disk_path_exists(slot.path.as_str(), &slot.data_type, on_disk);
    let mut settings = settings;
    settings.slots.set(index, LauncherSlot { exist, ..slot });
    Ok(settings)
}

/// Empties slot `index`.  Refused with `SlotOutOfRange` when there is no
/// such slot.
pub fn slot_clear(settings: LauncherSettings, index: usize) -> (r: Result<
    LauncherSettings,
    CommandError,
>)
    ensures
        (index < settings.slots@.len()) <==> r is Ok,
        r is Err ==> r == Err::<LauncherSettings, CommandError>(CommandError::SlotOutOfRange),
        r matches Ok(s) ==> {
            &&& s.version == settings.version
            &&& s.theme == settings.theme
            &&& s.slots@.len() == settings.slots@.len()
            &&& is_empty_slot(s.slots@[index as int], index as int)
            &&& (indices_match_positions(settings.slots@) ==> indices_match_positions(s.slots@))
            &&& forall|i: int|
                0 <= i < s.slots@.len() && i != index ==> #[trigger] s.slots@[i]
                    == settings.slots@[i]
        },
{
    if index >= settings.slots.len() {
        return Err(CommandError::SlotOutOfRange);
    }
    let mut settings = settings;
    settings.slots.set(index, empty_slot(index));
    Ok(settings)
}

/// `r` names the first present entry of `candidates`: its position and its
/// value, or nothing when no entry is present.
pub open spec fn first_present_of<T>(candidates: Seq<Option<T>>, r: Option<(usize, T)>) -> bool {
    match r {
        None => forall|i: int| 0 <= i < candidates.len() ==> #[trigger] candidates[i] is None,
        Some((k, s)) => {
            &&& k < candidates.len()
            &&& candidates[k as int] == Some(s)
            &&& forall|i: int| 0 <= i < k ==> #[trigger] candidates[i] is None
        },
    }
}

/// Chooses the settings to load from the candidates read (the main file,
/// then the backups newest first): the first that could be read, with its
/// position so that a recovery from a backup can name the file; `None` when
/// none could, in which case `default_settings` applies.
pub fn pick_loaded_settings(candidates: Vec<Option<LauncherSettings>>) -> (r: Option<
    (usize, LauncherSettings),
>)
    ensures
        first_present_of(candidates@, r),
{
    let mut rest = candidates;
    let ghost all = rest@;
    let mut k: usize = 0;
    assert(all.len() == rest.len());
    while rest.len() > 0
        invariant
            all == candidates@,
            all.len() <= usize::MAX,
            k + rest@.len() == all.len(),
            rest@ == all.subrange(k as int, all.len() as int),
            forall|i: int| 0 <= i < k ==> #[trigger] all[i] is None,
        decreases rest.len(),
    {
        let ghost before = rest@;
        let head = rest.remove(0);
        assert(before[0] == all[k as int]);
        assert(rest@ =~= all.subrange(k + 1, all.len() as int));
        match head {
            Some(s) => {
                return Some((k, s));
            },
            None => {
            },
        }
        k = k + 1;
    }
    None
}

} // verus!

verus! {

/// Law: normalising is idempotent.  Normalising settings that are already
/// the normal form of `s`, with the same disk answers for the slots that
/// came from `s`, gives the same slots, version and theme again.
pub proof fn lemma_normalize_is_idempotent(
    s: LauncherSettings,
    on_disk: Seq<bool>,
    r: LauncherSettings,
    on_disk_again: Seq<bool>,
    r2: LauncherSettings,
)
    requires
        normal_form_of(s, on_disk, r),
        normal_form_of(r, on_disk_again, r2),
        on_disk.len() >= kept_count(s.slots@.len()),
        on_disk_again.len() >= SLOT_COUNT,
        forall|i: int| 0 <= i < kept_count(s.slots@.len()) ==> on_disk_again[i] == on_disk[i],
    ensures
        r2.slots@ == r.slots@,
        r2.version == r.version,
        r2.theme == r.theme,
{
    assert forall|i: int| 0 <= i < SLOT_COUNT implies #[trigger] r2.slots@[i] == r.slots@[i] by {
        assert(is_placed_slot(
            r2.slots@[i],
            r.slots@[i],
            i,
            path_exists_rule(r.slots@[i].path@, r.slots@[i].data_type, on_disk_again[i]),
        ));
        if i < s.slots@.len() {
            assert(r.slots@[i].path == s.slots@[i].path);
        } else {
            assert(r.slots@[i].path@ =~= Seq::<char>::empty());
            assert(trimmed(r.slots@[i].path@) =~= Seq::<char>::empty());
        }
    }
    assert(r2.slots@ =~= r.slots@);
}

/// Law: the default settings are already in normal form; normalising them
/// (whatever the disk answers) changes nothing.
pub proof fn lemma_default_settings_are_normal(
    d: LauncherSettings,
    on_disk: Seq<bool>,
    r: LauncherSettings,
)
    requires
        d.version == SETTINGS_VERSION,
        d.theme == Theme::Classic,
        d.slots@.len() == SLOT_COUNT,
        forall|i: int| 0 <= i < SLOT_COUNT ==> is_empty_slot(#[trigger] d.slots@[i], i),
        on_disk.len() >= SLOT_COUNT,
        normal_form_of(d, on_disk, r),
    ensures
        is_normal(d),
        r.slots@ == d.slots@,
        r.version == d.version,
        r.theme == d.theme,
{
    assert forall|i: int| 0 <= i < SLOT_COUNT implies #[trigger] r.slots@[i] == d.slots@[i] by {
        assert(is_empty_slot(d.slots@[i], i));
        assert(trimmed(d.slots@[i].path@) =~= Seq::<char>::empty());
    }
    assert(r.slots@ =~= d.slots@);
}

/// Law: swapping the same two slots twice restores the slots, when every
/// slot's `index` is its position.
pub proof fn lemma_swap_twice_restores(slots: Seq<LauncherSlot>, lhs: usize, rhs: usize)
    requires
        lhs < slots.len(),
        rhs < slots.len(),
        indices_match_positions(slots),
    ensures
        swap_rule(swap_rule(slots, lhs, rhs), lhs, rhs) == slots,
{
    let once = swap_rule(slots, lhs, rhs);
    let twice = swap_rule(once, lhs, rhs);
    assert(slots[lhs as int].index == lhs);
    assert(slots[rhs as int].index == rhs);
    assert(twice =~= slots);
}

/// Law: swapping, updating and clearing slots keep every slot numbered by
/// its position.
pub proof fn lemma_slot_edits_keep_numbering(
    slots: Seq<LauncherSlot>,
    lhs: usize,
    rhs: usize,
    slot: LauncherSlot,
    exist: bool,
)
    requires
        lhs < slots.len(),
        rhs < slots.len(),
        slot.index < slots.len(),
        indices_match_positions(slots),
    ensures
        indices_match_positions(swap_rule(slots, lhs, rhs)),
        indices_match_positions(slots.update(slot.index as int, placed(slot, slot.index, exist))),
{
    let u = slots.update(slot.index as int, placed(slot, slot.index, exist));
    assert forall|i: int| 0 <= i < u.len() implies #[trigger] u[i].index == i by {
        if i != slot.index {
            assert(u[i] == slots[i]);
        }
    }
}

} // verus!

verus! {

/// Law: a swap moves whole slots.  The slot now at `lhs` is the old slot at
/// `rhs` in every field but its number (its `exist` flag included), the slot
/// now at `rhs` is the old slot at `lhs` likewise, and every other slot
/// stays as it was.
pub proof fn lemma_swap_moves_whole_slots(slots: Seq<LauncherSlot>, lhs: usize, rhs: usize)
    requires
        lhs < slots.len(),
        rhs < slots.len(),
    ensures
        ({
            let r = swap_rule(slots, lhs, rhs);
            &&& r.len() == slots.len()
            &&& r[lhs as int].index == lhs
            &&& r[lhs as int].data_type == slots[rhs as int].data_type
            &&& r[lhs as int].path == slots[rhs as int].path
            &&& r[lhs as int].arg == slots[rhs as int].arg
            &&& r[lhs as int].comment == slots[rhs as int].comment
            &&& r[lhs as int].exist == slots[rhs as int].exist
            &&& r[rhs as int].index == rhs
            &&& r[rhs as int].data_type == slots[lhs as int].data_type
            &&& r[rhs as int].path == slots[lhs as int].path
            &&& r[rhs as int].arg == slots[lhs as int].arg
            &&& r[rhs as int].comment == slots[lhs as int].comment
            &&& r[rhs as int].exist == slots[lhs as int].exist
            &&& forall|i: int| 0 <= i < slots.len() && i != lhs && i != rhs ==> #[trigger] r[i]
                == slots[i]
        }),
{
}

/// Law: an update changes only the slot it names, which takes every field of
/// the given slot but `exist`; `exist` is the disk answer for anything but a
/// blank path or a web address.
pub proof fn lemma_update_changes_one_slot(
    slots: Seq<LauncherSlot>,
    slot: LauncherSlot,
    on_disk: bool,
)
    requires
        slot.index < slots.len(),
    ensures
        ({
            let r = slots.update(
                slot.index as int,
                placed(slot, slot.index, path_exists_rule(slot.path@, slot.data_type, on_disk)),
            );
            &&& r.len() == slots.len()
            &&& r[slot.index as int].index == slot.index
            &&& r[slot.index as int].data_type == slot.data_type
            &&& r[slot.index as int].path == slot.path
            &&& r[slot.index as int].arg == slot.arg
            &&& r[slot.index as int].comment == slot.comment
            &&& (trimmed(slot.path@).len() > 0 && slot.data_type != DataType::Url)
                ==> r[slot.index as int].exist == on_disk
            &&& trimmed(slot.path@).len() == 0 ==> !r[slot.index as int].exist
            &&& forall|i: int| 0 <= i < slots.len() && i != slot.index ==> #[trigger] r[i]
                == slots[i]
        }),
{
}

} // verus!

verus! {

/// Law: what normalising keeps.  The normal form has the current version,
/// the given theme and exactly `SLOT_COUNT` slots numbered by position; each
/// kept slot keeps its data type, path, argument and comment, and exists
/// exactly when its path is not blank and either it is a web address naming
/// `http://`/`https://` or starting with `www`, or the disk says so; every
/// other slot is empty and does not exist.
pub proof fn lemma_normal_form_keeps_slots(s: LauncherSettings, on_disk: Seq<bool>, r: LauncherSettings)
    requires
        normal_form_of(s, on_disk, r),
    ensures
        r.version == SETTINGS_VERSION,
        r.theme == s.theme,
        r.slots@.len() == SLOT_COUNT,
        forall|i: int|
            0 <= i < SLOT_COUNT && i < s.slots@.len() ==> {
                let (a, b) = (#[trigger] r.slots@[i], s.slots@[i]);
                let t = trimmed(b.path@);
                &&& a.index == i
                &&& a.data_type == b.data_type
                &&& a.path == b.path
                &&& a.arg == b.arg
                &&& a.comment == b.comment
                &&& t.len() == 0 ==> !a.exist
                &&& (t.len() > 0 && b.data_type != DataType::Url) ==> a.exist == on_disk[i]
            },
        forall|i: int|
            s.slots@.len() <= i < SLOT_COUNT ==> {
                &&& (#[trigger] r.slots@[i]).index == i
                &&& r.slots@[i].data_type == DataType::Empty
                &&& r.slots@[i].path@.len() == 0
                &&& !r.slots@[i].exist
            },
{
}

/// Law: loading prefers the earliest readable candidate: when the main file
/// could be read it is used, and the choice is unique.
pub proof fn lemma_loading_prefers_the_earliest<T>(
    candidates: Seq<Option<T>>,
    r: Option<(usize, T)>,
    r2: Option<(usize, T)>,
)
    requires
        first_present_of(candidates, r),
        first_present_of(candidates, r2),
    ensures
        r == r2,
        candidates.len() > 0 && candidates[0] is Some ==> r == Some((0usize, candidates[0]->0)),
        r is None <==> forall|i: int| 0 <= i < candidates.len() ==> #[trigger] candidates[i] is None,
{
    match (r, r2) {
        (Some((k, _)), Some((k2, _))) => {
            if k < k2 {
                assert(candidates[k as int] is None);
            } else if k2 < k {
                assert(candidates[k2 as int] is None);
            }
        },
        (Some((k, _)), None) => {
            assert(candidates[k as int] is None);
        },
        (None, Some((k2, _))) => {
            assert(candidates[k2 as int] is None);
        },
        (None, None) => {},
    }
    if r is None && candidates.len() > 0 {
    }
}

} // verus!
