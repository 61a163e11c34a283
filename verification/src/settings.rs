//! The state as named settings: reading a state from stored settings, and
//! the writes that store a state.

use vstd::prelude::*;

use crate::lg_ac::{
    default_target_text, law_mode_text_reads_back, fan_mode_of_text, fan_mode_text, mode_of_text, mode_text, FanMode, Mode,
    State,
};
use crate::number::{
    i32_to_string, int_text, is_i32_text, lemma_int_text_reads_back, parse_i32, signed_value,
};
use crate::text::str_eq;

verus! {

/// A stored setting: a name and its value.
pub struct Setting {
    pub name: String,
    pub val: String,
}

impl Clone for Setting {
    fn clone(&self) -> (r: Self)
        ensures
            r == *self,
    {
        Setting { name: self.name.clone(), val: self.val.clone() }
    }
}

/// A setting to be stored.
pub struct NewSetting<'a> {
    pub name: &'a str,
    pub val: &'a str,
}

/// The value of the first setting named `name`, if there is one.
pub open spec fn lookup(rows: Seq<Setting>, name: Seq<char>) -> Option<Seq<char>>
    decreases rows.len(),
{
    if rows.len() == 0 {
        None
    } else if rows[0].name@ == name {
        Some(rows[0].val@)
    } else {
        lookup(rows.drop_first(), name)
    }
}

/// The value of the first setting named `name`, if there is one.
pub fn get_setting(settings: &Vec<Setting>, name: &str) -> (r: Option<String>)
    ensures
        r is Some <==> lookup(settings@, name@) is Some,
        r matches Some(v) ==> lookup(settings@, name@) == Some(v@),
{
    let n = settings.len();
    let mut i: usize = 0;
    assert(settings@.skip(0) =~= settings@);
    while i < n
        invariant
            n == settings.len(),
            i <= n,
            lookup(settings@, name@) == lookup(settings@.skip(i as int), name@),
        decreases n - i,
    {
        assert(settings@.skip(i as int)[0] == settings@[i as int]);
        assert(settings@.skip(i as int).drop_first() =~= settings@.skip(i + 1));
        if str_eq(settings[i].name.as_str(), name) {
            return Some(settings[i].val.clone());
        }
        i = i + 1;
    }
    assert(settings@.skip(n as int).len() == 0);
    None
}

/// Why stored settings cannot be read as a state.
#[derive(PartialEq, Eq, Structural, Debug, Copy, Clone)]
pub enum SettingsFault {
    /// The stored mode is no mode's name.
    Mode,
    /// A stored temperature limit or fan speed is no `i32`.
    Number,
    /// The stored fan mode is no fan mode's name.
    FanMode,
}

/// A stored numeric setting that does not read as an `i32`.
pub open spec fn bad_number(rows: Seq<Setting>, name: Seq<char>) -> bool {
    lookup(rows, name) matches Some(v) && !is_i32_text(v)
}

/// The first reason, in reading order, why the settings are no state;
/// `None` when they are one.
pub open spec fn settings_fault(rows: Seq<Setting>) -> Option<SettingsFault> {
    if lookup(rows, "mode"@) matches Some(v) && mode_of_text(v) is None {
        Some(SettingsFault::Mode)
    } else if bad_number(rows, "min_temp"@) || bad_number(rows, "max_temp"@) || bad_number(
        rows,
        "fan_speed"@,
    ) {
        Some(SettingsFault::Number)
    } else if lookup(rows, "fan_mode"@) matches Some(v) && fan_mode_of_text(v) is None {
        Some(SettingsFault::FanMode)
    } else {
        None
    }
}

/// The number that a stored setting holds, or `default` where none is
/// stored.
pub open spec fn number_or(rows: Seq<Setting>, name: Seq<char>, default: int) -> int {
    match lookup(rows, name) {
        Some(v) => signed_value(v),
        None => default,
    }
}

fn read_number(settings: &Vec<Setting>, name: &str, default: i32) -> (r: Result<i32, ()>)
    ensures
        r is Err <==> bad_number(settings@, name@),
        r matches Ok(v) ==> v == number_or(settings@, name@, default as int),
{
    match get_setting(settings, name) {
        None => Ok(default),
        Some(v) => match parse_i32(v.as_str()) {
            Some(x) => Ok(x),
            None => Err(()),
        },
    }
}

fn read_settings(settings: &Vec<Setting>) -> (r: Result<State, SettingsFault>)
    ensures
        r is Err <==> settings_fault(settings@) is Some,
        r matches Err(f) ==> settings_fault(settings@) == Some(f),
        r matches Ok(s) ==> state_read_from(settings@, s),
{
    let mut s = State::default();
    if let Some(m) = get_setting(settings, "mode") {
        match Mode::from_str(m.as_str()) {
            Ok(mode) => s.mode = mode,
            Err(_) => return Err(SettingsFault::Mode),
        }
    }
    let min_temp = read_number(settings, "min_temp", 18);
    let max_temp = read_number(settings, "max_temp", 30);
    let fan_speed = read_number(settings, "fan_speed", 0);
    match (min_temp, max_temp, fan_speed) {
        (Ok(a), Ok(b), Ok(c)) => {
            s.min_temp = a;
            s.max_temp = b;
            s.fan_speed = c;
        },
        _ => return Err(SettingsFault::Number),
    }
    if let Some(t) = get_setting(settings, "target_temp") {
        s.target_temp = t;
    }
    if let Some(m) = get_setting(settings, "fan_mode") {
        match FanMode::from_str(m.as_str()) {
            Ok(f) => s.fan_mode = f,
            Err(_) => return Err(SettingsFault::FanMode),
        }
    }
    Ok(s)
}

/// `s` is the state that readable settings `rows` describe: each stored
/// setting read, the default for each one not stored.
pub open spec fn state_read_from(rows: Seq<Setting>, s: State) -> bool {
    &&& s.updated
    &&& s.mode == match lookup(rows, "mode"@) {
        Some(v) => mode_of_text(v).unwrap(),
        None => Mode::Off,
    }
    &&& s.min_temp == number_or(rows, "min_temp"@, 18)
    &&& s.max_temp == number_or(rows, "max_temp"@, 30)
    &&& s.target_temp@ == match lookup(rows, "target_temp"@) {
        Some(v) => v,
        None => default_target_text(),
    }
    &&& s.fan_speed == number_or(rows, "fan_speed"@, 0)
    &&& s.fan_mode == match lookup(rows, "fan_mode"@) {
        Some(v) => fan_mode_of_text(v).unwrap(),
        None => FanMode::Low,
    }
}

/// Tells whether stored settings can be read as a state, and if not, the
/// first reason why.
pub fn check_settings(settings: &Vec<Setting>) -> (r: Option<SettingsFault>)
    ensures
        r == settings_fault(settings@),
{
    match read_settings(settings) {
        Ok(_) => None,
        Err(f) => Some(f),
    }
}

/// The state that stored settings describe: the default state with each
/// stored setting (`mode`, `min_temp`, `max_temp`, `target_temp`,
/// `fan_speed`, `fan_mode`) read over its field.
pub fn get_state(settings: &Vec<Setting>) -> (r: State)
    requires
        settings_fault(settings@) is None,
    ensures
        state_read_from(settings@, r),
{
    match read_settings(settings) {
        Ok(s) => s,
        Err(_) => {
            assert(false);
            State::default()
        },
    }
}

/// One write of a setting: adding it where it is not stored yet, updating
/// it where it is.
pub enum SettingWrite {
    Add { name: String, val: String },
    Update { name: String, val: String },
}

impl SettingWrite {
    /// Whether the write adds a new setting.
    pub open spec fn adds(self) -> bool {
        self is Add
    }

    /// The name of the setting written.
    pub open spec fn name(self) -> Seq<char> {
        match self {
            SettingWrite::Add { name, .. } => name@,
            SettingWrite::Update { name, .. } => name@,
        }
    }

    /// The value written.
    pub open spec fn val(self) -> Seq<char> {
        match self {
            SettingWrite::Add { val, .. } => val@,
            SettingWrite::Update { val, .. } => val@,
        }
    }
}

/// The settings that store a state, in the order they are written, as
/// pairs of name and value. The `fan_mode` setting receives the target
/// temperature's text.
pub open spec fn state_settings(s: State) -> Seq<(Seq<char>, Seq<char>)> {
    seq![
        ("mode"@, mode_text(s.mode)),
        ("min_temp"@, int_text(s.min_temp as int)),
        ("max_temp"@, int_text(s.max_temp as int)),
        ("target_temp"@, s.target_temp@),
        ("fan_speed"@, int_text(s.fan_speed as int)),
        ("fan_mode"@, s.target_temp@),
    ]
}

fn write_for(settings: &Vec<Setting>, name: &str, val: String) -> (r: SettingWrite)
    ensures
        r.name() == name@,
        r.val() == val@,
        r.adds() <==> lookup(settings@, name@) is None,
{
    match get_setting(settings, name) {
        None => SettingWrite::Add { name: String::from_str(name), val },
        Some(_) => SettingWrite::Update { name: String::from_str(name), val },
    }
}

/// A write as a value: whether it adds, the setting's name, the value.
pub open spec fn write_view(w: SettingWrite) -> (bool, Seq<char>, Seq<char>) {
    (w.adds(), w.name(), w.val())
}

/// The writes that store `s` over the stored `rows`, as values: one per
/// entry of `state_settings`, an addition exactly where no setting of that
/// name is stored.
pub open spec fn planned_writes(rows: Seq<Setting>, s: State) -> Seq<(bool, Seq<char>, Seq<char>)> {
    Seq::new(
        6,
        |i: int|
            (
                lookup(rows, state_settings(s)[i].0) is None,
                state_settings(s)[i].0,
                state_settings(s)[i].1,
            ),
    )
}

/// The settings that stored rows hold, by name: each name's first row.
pub open spec fn store_of(rows: Seq<Setting>) -> Map<Seq<char>, Seq<char>> {
    Map::new(|k: Seq<char>| lookup(rows, k) is Some, |k: Seq<char>| lookup(rows, k).unwrap())
}

/// What a write does to the settings held by name: an addition stores a
/// new name and is refused where the name is held; an update rewrites the
/// value of a held name and touches nothing where the name is not held.
pub open spec fn apply_write(
    store: Map<Seq<char>, Seq<char>>,
    w: (bool, Seq<char>, Seq<char>),
) -> Map<Seq<char>, Seq<char>> {
    if w.0 != store.dom().contains(w.1) {
        store.insert(w.1, w.2)
    } else {
        store
    }
}

/// The settings held after the writes `ws`, in order.
pub open spec fn apply_writes(
    store: Map<Seq<char>, Seq<char>>,
    ws: Seq<(bool, Seq<char>, Seq<char>)>,
) -> Map<Seq<char>, Seq<char>>
    decreases ws.len(),
{
    if ws.len() == 0 {
        store
    } else {
        apply_write(apply_writes(store, ws.drop_last()), ws.last())
    }
}

/// The writes that store `new_state` over the stored `settings`: one per
/// entry of `state_settings`, in its order, each an addition where no
/// setting of that name is stored and an update where one is.
pub fn update_state(settings: &Vec<Setting>, new_state: &State) -> (r: Vec<SettingWrite>)
    ensures
        r.len() == 6,
        forall|i: int|
            0 <= i < 6 ==> {
                &&& (#[trigger] r[i]).name() == state_settings(*new_state)[i].0
                &&& r[i].val() == state_settings(*new_state)[i].1
                &&& r[i].adds() <==> lookup(settings@, state_settings(*new_state)[i].0) is None
            },
        r@.map_values(|w: SettingWrite| write_view(w)) == planned_writes(settings@, *new_state),
{
    let mut r: Vec<SettingWrite> = Vec::new();
    r.push(write_for(settings, "mode", new_state.mode.to_string()));
    r.push(write_for(settings, "min_temp", i32_to_string(new_state.min_temp)));
    r.push(write_for(settings, "max_temp", i32_to_string(new_state.max_temp)));
    r.push(write_for(settings, "target_temp", new_state.target_temp.clone()));
    r.push(write_for(settings, "fan_speed", i32_to_string(new_state.fan_speed)));
    r.push(write_for(settings, "fan_mode", new_state.target_temp.clone()));
    assert(r@.map_values(|w: SettingWrite| write_view(w)) =~= planned_writes(
        settings@,
        *new_state,
    ));
    r
}

/// Every setting that storing a state writes, the `fan_mode` entry aside,
/// reads back as the field it was written from: the mode's name as the
/// mode, each number's text as the number, the temperature's text as
/// itself.
pub proof fn law_written_settings_read_back(s: State)
    ensures
        mode_of_text(state_settings(s)[0].1) == Some(s.mode),
        is_i32_text(state_settings(s)[1].1),
        signed_value(state_settings(s)[1].1) == s.min_temp,
        is_i32_text(state_settings(s)[2].1),
        signed_value(state_settings(s)[2].1) == s.max_temp,
        state_settings(s)[3].1 == s.target_temp@,
        is_i32_text(state_settings(s)[4].1),
        signed_value(state_settings(s)[4].1) == s.fan_speed,
{
    law_mode_text_reads_back(s.mode);
    lemma_int_text_reads_back(s.min_temp);
    lemma_int_text_reads_back(s.max_temp);
    lemma_int_text_reads_back(s.fan_speed);
}

/// Settings that hold what storing a state wrote are read back as that
/// state, its fan mode aside: the `fan_mode` entry holds the target
/// temperature's text, so they are readable only where that text names a
/// fan mode, and then it is that fan mode which is read.
pub proof fn law_stored_state_reads_back(rows: Seq<Setting>, s: State, read: State)
    requires
        forall|i: int|
            0 <= i < 6 ==> lookup(rows, (#[trigger] state_settings(s)[i]).0) == Some(
                state_settings(s)[i].1,
            ),
        fan_mode_of_text(s.target_temp@) is Some,
        state_read_from(rows, read),
    ensures
        settings_fault(rows) is None,
        read.mode == s.mode,
        read.min_temp == s.min_temp,
        read.max_temp == s.max_temp,
        read.target_temp@ == s.target_temp@,
        read.fan_speed == s.fan_speed,
        Some(read.fan_mode) == fan_mode_of_text(s.target_temp@),
{
    law_written_settings_read_back(s);
    let w = state_settings(s);
    assert(lookup(rows, w[0].0) == Some(w[0].1));
    assert(lookup(rows, w[1].0) == Some(w[1].1));
    assert(lookup(rows, w[2].0) == Some(w[2].1));
    assert(lookup(rows, w[3].0) == Some(w[3].1));
    assert(lookup(rows, w[4].0) == Some(w[4].1));
    assert(lookup(rows, w[5].0) == Some(w[5].1));
}

/// The six setting names that storing a state writes are distinct.
proof fn lemma_setting_names_distinct(s: State)
    ensures
        forall|i: int, j: int|
            0 <= i < j < 6 ==> (#[trigger] state_settings(s)[i]).0 != (
            #[trigger] state_settings(s)[j]).0,
{
    reveal_strlit("mode");
    reveal_strlit("min_temp");
    reveal_strlit("max_temp");
    reveal_strlit("target_temp");
    reveal_strlit("fan_speed");
    reveal_strlit("fan_mode");
    let w = state_settings(s);
    assert(w[0].0.len() == 4);
    assert(w[1].0.len() == 8);
    assert(w[2].0.len() == 8);
    assert(w[3].0.len() == 11);
    assert(w[4].0.len() == 9);
    assert(w[5].0.len() == 8);
    assert(w[1].0[1] != w[2].0[1]);
    assert(w[1].0[0] != w[5].0[0]);
    assert(w[2].0[0] != w[5].0[0]);
    assert forall|i: int, j: int| 0 <= i < j < 6 implies (#[trigger] state_settings(s)[i]).0 != (
    #[trigger] state_settings(s)[j]).0 by {
        if i == 1 && j == 2 {
            assert(w[1].0[1] != w[2].0[1]);
        } else if i == 1 && j == 5 {
            assert(w[1].0[0] != w[5].0[0]);
        } else if i == 2 && j == 5 {
            assert(w[2].0[0] != w[5].0[0]);
        }
    }
}

/// Writes to other names leave a name as it was.
proof fn lemma_apply_untouched(
    store: Map<Seq<char>, Seq<char>>,
    ws: Seq<(bool, Seq<char>, Seq<char>)>,
    k: Seq<char>,
)
    requires
        forall|i: int| 0 <= i < ws.len() ==> (#[trigger] ws[i]).1 != k,
    ensures
        apply_writes(store, ws).dom().contains(k) == store.dom().contains(k),
        store.dom().contains(k) ==> apply_writes(store, ws)[k] == store[k],
    decreases ws.len(),
{
    if ws.len() > 0 {
        let init = ws.drop_last();
        assert forall|i: int| 0 <= i < init.len() implies (#[trigger] init[i]).1 != k by {
            assert(init[i] == ws[i]);
        }
        lemma_apply_untouched(store, init, k);
        assert(ws[ws.len() - 1].1 != k);
    }
}

/// Writes to distinct names, each an addition exactly where its name is not
/// held, leave each written name holding its value.
proof fn lemma_apply_consistent_writes(
    store: Map<Seq<char>, Seq<char>>,
    ws: Seq<(bool, Seq<char>, Seq<char>)>,
)
    requires
        forall|i: int, j: int| 0 <= i < j < ws.len() ==> (#[trigger] ws[i]).1 != (#[trigger] ws[j]).1,
        forall|i: int| 0 <= i < ws.len() ==> ((#[trigger] ws[i]).0 <==> !store.dom().contains(ws[i].1)),
    ensures
        forall|i: int|
            0 <= i < ws.len() ==> apply_writes(store, ws).dom().contains((#[trigger] ws[i]).1)
                && apply_writes(store, ws)[ws[i].1] == ws[i].2,
    decreases ws.len(),
{
    if ws.len() > 0 {
        let init = ws.drop_last();
        assert forall|i: int, j: int| 0 <= i < j < init.len() implies (#[trigger] init[i]).1 != (
        #[trigger] init[j]).1 by {
            assert(init[i] == ws[i] && init[j] == ws[j]);
        }
        assert forall|i: int| 0 <= i < init.len() implies ((#[trigger] init[i]).0 <==> !store.dom().contains(init[i].1)) by {
            assert(init[i] == ws[i]);
        }
        lemma_apply_consistent_writes(store, init);
        let m = apply_writes(store, init);
        let last = ws.last();
        assert(ws[ws.len() - 1] == last);
        assert forall|i: int| 0 <= i < init.len() implies (#[trigger] init[i]).1 != last.1 by {
            assert(init[i] == ws[i]);
        }
        lemma_apply_untouched(store, init, last.1);
        assert(apply_writes(store, ws) == m.insert(last.1, last.2));
        assert forall|i: int| 0 <= i < ws.len() implies apply_writes(store, ws).dom().contains((#[trigger] ws[i]).1)
            && apply_writes(store, ws)[ws[i].1] == ws[i].2 by {
            if i < ws.len() - 1 {
                assert(init[i] == ws[i]);
            }
        }
    }
}

/// Storing a state twice in a row leaves the settings as storing it once
/// does: after the first time each of the six names holds its one value
/// (the state's entry in `state_settings`) and every other name is as it
/// was; the second time, every write is an update to the value already
/// held.
pub proof fn law_update_state_twice(rows: Seq<Setting>, rows_after: Seq<Setting>, s: State)
    requires
        store_of(rows_after) == apply_writes(store_of(rows), planned_writes(rows, s)),
    ensures
        forall|i: int|
            0 <= i < 6 ==> store_of(rows_after).dom().contains((#[trigger] state_settings(s)[i]).0)
                && store_of(rows_after)[state_settings(s)[i].0] == state_settings(s)[i].1,
        forall|k: Seq<char>|
            (forall|i: int| 0 <= i < 6 ==> (#[trigger] state_settings(s)[i]).0 != k) ==> (
            store_of(rows_after).dom().contains(k) == store_of(rows).dom().contains(k) && (
            store_of(rows).dom().contains(k) ==> store_of(rows_after)[k] == store_of(rows)[k])),
        forall|i: int| 0 <= i < 6 ==> !(#[trigger] planned_writes(rows_after, s)[i]).0,
        apply_writes(store_of(rows_after), planned_writes(rows_after, s)) == store_of(rows_after),
{
    lemma_setting_names_distinct(s);
    let p1 = planned_writes(rows, s);
    let p2 = planned_writes(rows_after, s);
    let st = store_of(rows);
    let st1 = store_of(rows_after);
    assert forall|i: int| 0 <= i < 6 implies (#[trigger] p1[i]).0 <==> !st.dom().contains(p1[i].1) by {}
    assert forall|i: int, j: int| 0 <= i < j < p1.len() implies (#[trigger] p1[i]).1 != (
    #[trigger] p1[j]).1 by {
        assert(state_settings(s)[i].0 != state_settings(s)[j].0);
    }
    lemma_apply_consistent_writes(st, p1);
    assert forall|i: int| 0 <= i < 6 implies st1.dom().contains((#[trigger] state_settings(s)[i]).0)
        && st1[state_settings(s)[i].0] == state_settings(s)[i].1 by {
        assert(p1[i].1 == state_settings(s)[i].0);
    }
    assert forall|k: Seq<char>|
        (forall|i: int| 0 <= i < 6 ==> (#[trigger] state_settings(s)[i]).0 != k) implies (
        st1.dom().contains(k) == st.dom().contains(k) && (st.dom().contains(k) ==> st1[k]
            == st[k])) by {
        assert forall|i: int| 0 <= i < p1.len() implies (#[trigger] p1[i]).1 != k by {
            assert(state_settings(s)[i].0 != k);
        }
        lemma_apply_untouched(st, p1, k);
    }
    assert forall|i: int| 0 <= i < 6 implies !(#[trigger] p2[i]).0 by {
        assert(st1.dom().contains(state_settings(s)[i].0));
    }
    assert forall|i: int| 0 <= i < 6 implies (#[trigger] p2[i]).0 <==> !st1.dom().contains(p2[i].1) by {
        assert(st1.dom().contains(state_settings(s)[i].0));
    }
    assert forall|i: int, j: int| 0 <= i < j < p2.len() implies (#[trigger] p2[i]).1 != (
    #[trigger] p2[j]).1 by {
        assert(state_settings(s)[i].0 != state_settings(s)[j].0);
    }
    lemma_apply_consistent_writes(st1, p2);
    let st2 = apply_writes(st1, p2);
    assert forall|k: Seq<char>|
        (#[trigger] st2.dom().contains(k) <==> st1.dom().contains(k)) && (st2.dom().contains(k) ==> st2[k]
            == st1[k]) by {
        if exists|i: int| 0 <= i < 6 && p2[i].1 == k {
            let i = choose|i: int| 0 <= i < 6 && p2[i].1 == k;
            assert(st1.dom().contains(state_settings(s)[i].0));
            assert(st2.dom().contains(p2[i].1));
            assert(st2[p2[i].1] == p2[i].2);
            assert(st1[state_settings(s)[i].0] == state_settings(s)[i].1);
        } else {
            lemma_apply_untouched(st1, p2, k);
        }
    }
    assert(st2.dom() =~= st1.dom());
    assert(st2 =~= st1);
}

/// A name is looked up as the value of its first row: nothing when no row
/// bears the name, otherwise the value of the earliest row that does.
pub proof fn law_lookup_first_row(rows: Seq<Setting>, name: Seq<char>)
    ensures
        lookup(rows, name) is None <==> forall|i: int|
            0 <= i < rows.len() ==> (#[trigger] rows[i]).name@ != name,
        lookup(rows, name) is Some ==> exists|i: int|
            0 <= i < rows.len() && (#[trigger] rows[i]).name@ == name && lookup(rows, name)
                == Some(rows[i].val@) && forall|j: int| 0 <= j < i ==> (#[trigger] rows[j]).name@
                != name,
    decreases rows.len(),
{
    if rows.len() > 0 {
        let rest = rows.drop_first();
        law_lookup_first_row(rest, name);
        if rows[0].name@ == name {
            assert(rows[0].name@ == name);
        } else {
            assert forall|i: int| 0 < i < rows.len() implies rows[i] == rest[i - 1] by {}
            if lookup(rest, name) is Some {
                let k = choose|k: int|
                    0 <= k < rest.len() && (#[trigger] rest[k]).name@ == name && lookup(rest, name)
                        == Some(rest[k].val@) && forall|j: int|
                        0 <= j < k ==> (#[trigger] rest[j]).name@ != name;
                assert(rows[k + 1] == rest[k]);
                assert forall|j: int| 0 <= j < k + 1 implies (#[trigger] rows[j]).name@ != name by {
                    if j > 0 {
                        assert(rows[j] == rest[j - 1]);
                    }
                }
            } else {
                assert forall|i: int| 0 <= i < rows.len() implies (#[trigger] rows[i]).name@ != name by {
                    if i > 0 {
                        assert(rows[i] == rest[i - 1]);
                    }
                }
            }
        }
    }
}

} // verus!
