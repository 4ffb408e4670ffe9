use vstd::prelude::*;
use crate::text::same_text;

verus! {

broadcast use vstd::seq_lib::group_seq_properties;

/// A connected display: its connector id, a name to show, and whether the
/// ring is drawn on it.
#[derive(Debug, Clone)]
pub struct MonitorState {
    pub id: String,
    pub display_name: String,
    pub enabled: bool,
}

/// A registry entry as plain values: id, display name, enabled.
pub type Entry = (Seq<char>, Seq<char>, bool);

pub open spec fn entry_of(m: MonitorState) -> Entry {
    (m.id@, m.display_name@, m.enabled)
}

pub open spec fn entries_of(v: Seq<MonitorState>) -> Seq<Entry> {
    v.map_values(|m: MonitorState| entry_of(m))
}

pub open spec fn names_of(v: Seq<String>) -> Seq<Seq<char>> {
    v.map_values(|s: String| s@)
}

pub open spec fn has_id(m: Seq<Entry>, id: Seq<char>) -> bool {
    exists|i: int| 0 <= i < m.len() && m[i].0 == id
}

pub open spec fn unique_ids(m: Seq<Entry>) -> bool {
    forall|i: int, j: int| 0 <= i < m.len() && 0 <= j < m.len() && m[i].0 == m[j].0 ==> i == j
}

/// Registering a display: a known id gets the new name and keeps its
/// enabled flag; a new id is added, enabled unless remembered as disabled.
pub open spec fn upserted(m: Seq<Entry>, disabled: Seq<Seq<char>>, id: Seq<char>, name: Seq<char>) -> Seq<Entry> {
    if has_id(m, id) {
        m.map_values(|e: Entry| if e.0 == id { (e.0, name, e.2) } else { e })
    } else {
        m.push((id, name, !disabled.contains(id)))
    }
}

pub open spec fn with_enabled(m: Seq<Entry>, id: Seq<char>, v: bool) -> Seq<Entry> {
    m.map_values(|e: Entry| if e.0 == id { (e.0, e.1, v) } else { e })
}

/// Whether the display is drawn on: unknown displays are.
pub open spec fn enabled_in(m: Seq<Entry>, id: Seq<char>) -> bool {
    if has_id(m, id) {
        m[choose|i: int| 0 <= i < m.len() && m[i].0 == id].2
    } else {
        true
    }
}

pub open spec fn other_than(id: Seq<char>) -> spec_fn(Seq<char>) -> bool {
    |x: Seq<char>| x != id
}

/// The remembered disabled ids after a display is enabled or disabled.
pub open spec fn remembered(disabled: Seq<Seq<char>>, id: Seq<char>, enabled: bool) -> Seq<Seq<char>> {
    if enabled {
        disabled.filter(other_than(id))
    } else if disabled.contains(id) {
        disabled
    } else {
        disabled.push(id)
    }
}

/// Registering the same id twice leaves exactly one entry for it, carrying
/// the second name and the enabled flag that the first registration left.
pub proof fn lemma_upsert_twice(
    m: Seq<Entry>,
    disabled: Seq<Seq<char>>,
    id: Seq<char>,
    first: Seq<char>,
    second: Seq<char>,
)
    requires
        unique_ids(m),
    ensures
        ({
            let m1 = upserted(m, disabled, id, first);
            let m2 = upserted(m1, disabled, id, second);
            &&& unique_ids(m2)
            &&& has_id(m2, id)
            &&& m2.len() == m1.len()
            &&& forall|i: int|
                0 <= i < m2.len() && m2[i].0 == id ==> m2[i].1 == second && m2[i].2 == enabled_in(
                    m1,
                    id,
                )
        }),
{
    let m1 = upserted(m, disabled, id, first);
    let m2 = upserted(m1, disabled, id, second);
    if has_id(m, id) {
        let k = choose|k: int| 0 <= k < m.len() && m[k].0 == id;
        assert(m1[k].0 == id);
    } else {
        assert(m1[m.len() as int].0 == id);
    }
    assert(has_id(m1, id));
    assert(unique_ids(m1));
    let j = choose|j: int| 0 <= j < m1.len() && m1[j].0 == id;
    assert(m2[j].0 == id);
    assert(unique_ids(m2));
}

/// Disabling a registered display makes it read as disabled.
pub proof fn lemma_disabled_reads_disabled(m: Seq<Entry>, id: Seq<char>)
    requires
        unique_ids(m),
        has_id(m, id),
    ensures
        !enabled_in(with_enabled(m, id, false), id),
{
    let k = choose|k: int| 0 <= k < m.len() && m[k].0 == id;
    let m1 = with_enabled(m, id, false);
    assert(m1[k].0 == id);
    assert(has_id(m1, id));
}

/// The displays known now, and the ids of displays the user disabled,
/// kept across disconnects and restarts.
pub struct Registry {
    entries: Vec<MonitorState>,
    disabled: Vec<String>,
}

impl Registry {
    pub closed spec fn entries(&self) -> Seq<Entry> {
        entries_of(self.entries@)
    }

    pub closed spec fn disabled(&self) -> Seq<Seq<char>> {
        names_of(self.disabled@)
    }

    pub open spec fn wf(&self) -> bool {
        unique_ids(self.entries())
    }

    /// An empty registry that remembers the given displays as disabled.
    pub fn new(disabled: Vec<String>) -> (r: Registry)
        ensures
            r.wf(),
            r.entries() == Seq::<Entry>::empty(),
            r.disabled() == names_of(disabled@),
    {
        let r = Registry { entries: Vec::new(), disabled };
        assert(r.entries() =~= Seq::<Entry>::empty());
        r
    }

    fn find(&self, id: &str) -> (r: Option<usize>)
        ensures
            match r {
                Some(i) => i < self.entries().len() && self.entries()[i as int].0 == id@,
                None => !has_id(self.entries(), id@),
            },
    {
        let mut i: usize = 0;
        while i < self.entries.len()
            invariant
                i <= self.entries@.len(),
                forall|j: int| 0 <= j < i ==> self.entries()[j].0 != id@,
            decreases self.entries@.len() - i,
        {
            if same_text(self.entries[i].id.as_str(), id) {
                return Some(i);
            }
            i = i + 1;
        }
        None
    }

    fn remembers(&self, id: &str) -> (r: bool)
        ensures
            r == self.disabled().contains(id@),
    {
        let mut i: usize = 0;
        while i < self.disabled.len()
            invariant
                i <= self.disabled@.len(),
                forall|j: int| 0 <= j < i ==> self.disabled()[j] != id@,
            decreases self.disabled@.len() - i,
        {
            if same_text(self.disabled[i].as_str(), id) {
                assert(self.disabled()[i as int] == id@);
                return true;
            }
            i = i + 1;
        }
        false
    }

    fn remember(&mut self, id: &str, enabled: bool)
        ensures
            final(self).entries() == old(self).entries(),
            final(self).disabled() == remembered(old(self).disabled(), id@, enabled),
    {
        if enabled {
            let ghost pred = other_than(id@);
            let mut kept: Vec<String> = Vec::new();
            let mut i: usize = 0;
            while i < self.disabled.len()
                invariant
                    i <= self.disabled@.len(),
                    pred == other_than(id@),
                    names_of(kept@) == self.disabled().take(i as int).filter(pred),
                decreases self.disabled@.len() - i,
            {
                let ghost prefix = self.disabled().take(i as int);
                let ghost x = self.disabled()[i as int];
                proof {
                    assert(self.disabled().take(i + 1) =~= prefix.push(x));
                    prefix.lemma_filter_push(x, pred);
                    assert(x == self.disabled@[i as int]@);
                }
                if !same_text(self.disabled[i].as_str(), id) {
                    let ghost before = kept@;
                    kept.push(self.disabled[i].clone());
                    assert(names_of(kept@) =~= names_of(before).push(x));
                    assert(pred(x));
                } else {
                    assert(!pred(x));
                }
                assert(names_of(kept@) == self.disabled().take(i + 1).filter(pred));
                i = i + 1;
            }
            assert(self.disabled().take(self.disabled@.len() as int) =~= self.disabled());
            self.disabled = kept;
        } else if !self.remembers(id) {
            self.disabled.push(String::from_str(id));
            assert(self.disabled() =~= names_of(old(self).disabled@).push(id@));
        }
    }

    /// Registers a display, or renames a known one without touching its
    /// enabled flag.
    pub fn upsert(&mut self, id: String, display_name: String)
        requires
            old(self).wf(),
        ensures
            final(self).wf(),
            final(self).entries() == upserted(
                old(self).entries(),
                old(self).disabled(),
                id@,
                display_name@,
            ),
            final(self).disabled() == old(self).disabled(),
    {
        let ghost m = self.entries();
        match self.find(id.as_str()) {
            Some(i) => {
                let enabled = self.entries[i].enabled;
                let ghost new_e: Entry = (id@, display_name@, enabled);
                self.entries.set(i, MonitorState { id, display_name, enabled });
                assert(self.entries() =~= upserted(m, self.disabled(), new_e.0, new_e.1));
            },
            None => {
                let enabled = !self.remembers(id.as_str());
                self.entries.push(MonitorState { id, display_name, enabled });
                assert(self.entries() =~= upserted(
                    m,
                    self.disabled(),
                    self.entries@.last().id@,
                    self.entries@.last().display_name@,
                ));
            },
        }
    }

    /// Forgets a display that went away. Its enabled flag stays remembered
    /// if it was disabled.
    pub fn remove(&mut self, id: &str)
        requires
            old(self).wf(),
        ensures
            final(self).wf(),
            final(self).disabled() == old(self).disabled(),
            !has_id(final(self).entries(), id@),
            has_id(old(self).entries(), id@) ==> exists|i: int|
                0 <= i < old(self).entries().len() && old(self).entries()[i].0 == id@
                    && final(self).entries() == old(self).entries().remove(i),
            !has_id(old(self).entries(), id@) ==> final(self).entries() == old(self).entries(),
    {
        let ghost m = self.entries();
        if let Some(i) = self.find(id) {
            self.entries.remove(i);
            assert(self.entries() =~= m.remove(i as int));
        }
    }

    /// Sets whether the ring is drawn on a display, and remembers it.
    pub fn set_enabled(&mut self, id: &str, enabled: bool)
        requires
            old(self).wf(),
        ensures
            final(self).wf(),
            final(self).entries() == with_enabled(old(self).entries(), id@, enabled),
            final(self).disabled() == remembered(old(self).disabled(), id@, enabled),
    {
        let ghost m = self.entries();
        if let Some(i) = self.find(id) {
            let id_copy = self.entries[i].id.clone();
            let name_copy = self.entries[i].display_name.clone();
            self.entries.set(i, MonitorState { id: id_copy, display_name: name_copy, enabled });
        }
        assert(self.entries() =~= with_enabled(m, id@, enabled));
        self.remember(id, enabled);
    }

    /// Flips whether the ring is drawn on a known display; unknown ids are
    /// ignored.
    pub fn toggle(&mut self, id: &str)
        requires
            old(self).wf(),
        ensures
            final(self).wf(),
            has_id(old(self).entries(), id@) ==> final(self).entries() == with_enabled(
                old(self).entries(),
                id@,
                !enabled_in(old(self).entries(), id@),
            ) && final(self).disabled() == remembered(
                old(self).disabled(),
                id@,
                !enabled_in(old(self).entries(), id@),
            ),
            !has_id(old(self).entries(), id@) ==> final(self).entries() == old(self).entries()
                && final(self).disabled() == old(self).disabled(),
    {
        if let Some(i) = self.find(id) {
            let enabled = self.entries[i].enabled;
            self.set_enabled(id, !enabled);
        }
    }

    /// Whether the ring is drawn on a display; unknown displays are.
    pub fn is_enabled(&self, id: &str) -> (r: bool)
        requires
            self.wf(),
        ensures
            r == enabled_in(self.entries(), id@),
    {
        match self.find(id) {
            Some(i) => self.entries[i].enabled,
            None => true,
        }
    }

    /// The known displays.
    pub fn list(&self) -> (r: Vec<MonitorState>)
        ensures
            entries_of(r@) == self.entries(),
    {
        let mut out: Vec<MonitorState> = Vec::new();
        let mut i: usize = 0;
        while i < self.entries.len()
            invariant
                i <= self.entries@.len(),
                entries_of(out@) == self.entries().take(i as int),
            decreases self.entries@.len() - i,
        {
            let e = &self.entries[i];
            let ghost before = out@;
            out.push(
                MonitorState {
                    id: e.id.clone(),
                    display_name: e.display_name.clone(),
                    enabled: e.enabled,
                },
            );
            assert(entries_of(out@) =~= entries_of(before).push(self.entries()[i as int]));
            assert(self.entries().take(i + 1) =~= self.entries().take(i as int).push(
                self.entries()[i as int],
            ));
            i = i + 1;
        }
        assert(self.entries().take(self.entries@.len() as int) =~= self.entries());
        out
    }

    /// Ids of the displays remembered as disabled.
    pub fn disabled_ids(&self) -> (r: Vec<String>)
        ensures
            names_of(r@) == self.disabled(),
    {
        let mut out: Vec<String> = Vec::new();
        let mut i: usize = 0;
        while i < self.disabled.len()
            invariant
                i <= self.disabled@.len(),
                names_of(out@) == self.disabled().take(i as int),
            decreases self.disabled@.len() - i,
        {
            let ghost before = out@;
            out.push(self.disabled[i].clone());
            assert(names_of(out@) =~= names_of(before).push(self.disabled()[i as int]));
            assert(self.disabled().take(i + 1) =~= self.disabled().take(i as int).push(
                self.disabled()[i as int],
            ));
            i = i + 1;
        }
        assert(self.disabled().take(self.disabled@.len() as int) =~= self.disabled());
        out
    }
}

} // verus!
