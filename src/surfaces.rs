use vstd::prelude::*;
use crate::color::{hex_char, push_hex_digit};
use crate::text::same_text;

verus! {

broadcast use vstd::seq_lib::group_seq_properties;

/// Decimal digits of a number.
pub open spec fn decimal_of(n: nat) -> Seq<char>
    decreases n,
{
    if n < 10 {
        seq![hex_char(n)]
    } else {
        decimal_of(n / 10).push(hex_char(n % 10))
    }
}

fn decimal(n: u32) -> (s: String)
    ensures
        s@ == decimal_of(n as nat),
    decreases n,
{
    if n < 10 {
        let mut s = String::new();
        push_hex_digit(&mut s, n as u8);
        assert(s@ =~= seq![hex_char(n as nat)]);
        s
    } else {
        let mut s = decimal(n / 10);
        push_hex_digit(&mut s, (n % 10) as u8);
        s
    }
}

/// Id of a display: its connector name, or else `output-` and the number
/// the display server gave the output.
pub open spec fn output_id_of(connector: Option<Seq<char>>, number: u32) -> Seq<char> {
    match connector {
        Some(c) => c,
        None => "output-"@ + decimal_of(number as nat),
    }
}

pub fn output_id(connector: Option<String>, number: u32) -> (id: String)
    ensures
        id@ == output_id_of(
            match connector {
                Some(c) => Some(c@),
                None => None,
            },
            number,
        ),
{
    match connector {
        Some(c) => c,
        None => {
            let mut s = String::from_str("output-");
            let digits = decimal(number);
            s.append(digits.as_str());
            s
        },
    }
}

/// Name shown for a display: maker and model, else the maker, else the
/// model, else its id.
pub open spec fn display_name_of(make: Seq<char>, model: Seq<char>, id: Seq<char>) -> Seq<char> {
    if make.len() > 0 {
        if model.len() > 0 {
            make + " "@ + model
        } else {
            make
        }
    } else if model.len() > 0 {
        model
    } else {
        id
    }
}

pub fn display_name(make: &str, model: &str, id: &str) -> (name: String)
    ensures
        name@ == display_name_of(make@, model@, id@),
{
    if make.unicode_len() > 0 {
        let mut s = String::from_str(make);
        if model.unicode_len() > 0 {
            s.append(" ");
            s.append(model);
        }
        s
    } else if model.unicode_len() > 0 {
        String::from_str(model)
    } else {
        String::from_str(id)
    }
}

/// Rendering state of the surface shown on one display.
#[derive(Debug, Clone)]
pub struct SurfaceState {
    pub surface_id: u32,
    pub output_name: String,
    pub width: u32,
    pub height: u32,
    pub first_configure: bool,
}

/// A surface as plain values: surface id, display id, width, height, and
/// whether its first size is still awaited.
pub type SurfaceEntry = (u32, Seq<char>, u32, u32, bool);

pub open spec fn surface_entry(s: SurfaceState) -> SurfaceEntry {
    (s.surface_id, s.output_name@, s.width, s.height, s.first_configure)
}

pub open spec fn surface_entries(v: Seq<SurfaceState>) -> Seq<SurfaceEntry> {
    v.map_values(|s: SurfaceState| surface_entry(s))
}

pub open spec fn surfaces_wf(m: Seq<SurfaceEntry>) -> bool {
    forall|i: int, j: int|
        0 <= i < m.len() && 0 <= j < m.len() && i != j ==> m[i].0 != m[j].0 && m[i].1 != m[j].1
}

pub open spec fn sized(m: Seq<SurfaceEntry>, surface_id: u32, width: u32, height: u32) -> Seq<SurfaceEntry> {
    m.map_values(
        |e: SurfaceEntry| if e.0 == surface_id { (e.0, e.1, width, height, false) } else { e },
    )
}

pub open spec fn has_surface(m: Seq<SurfaceEntry>, surface_id: u32) -> bool {
    exists|i: int| 0 <= i < m.len() && m[i].0 == surface_id
}

pub open spec fn has_output(m: Seq<SurfaceEntry>, output: Seq<char>) -> bool {
    exists|i: int| 0 <= i < m.len() && m[i].1 == output
}

/// The surfaces without the one with the given id.
pub open spec fn without_surface(m: Seq<SurfaceEntry>, surface_id: u32) -> Seq<SurfaceEntry> {
    if has_surface(m, surface_id) {
        m.remove(choose|i: int| 0 <= i < m.len() && m[i].0 == surface_id)
    } else {
        m
    }
}

/// The surfaces without the one on the given display.
pub open spec fn without_output(m: Seq<SurfaceEntry>, output: Seq<char>) -> Seq<SurfaceEntry> {
    if has_output(m, output) {
        m.remove(choose|i: int| 0 <= i < m.len() && m[i].1 == output)
    } else {
        m
    }
}

/// The surfaces of all connected displays: at most one per surface and
/// one per display.
pub struct Surfaces {
    items: Vec<SurfaceState>,
}

impl Surfaces {
    pub closed spec fn entries(&self) -> Seq<SurfaceEntry> {
        surface_entries(self.items@)
    }

    pub open spec fn wf(&self) -> bool {
        surfaces_wf(self.entries())
    }

    pub fn new() -> (s: Surfaces)
        ensures
            s.wf(),
            s.entries() == Seq::<SurfaceEntry>::empty(),
    {
        let s = Surfaces { items: Vec::new() };
        assert(s.entries() =~= Seq::<SurfaceEntry>::empty());
        s
    }

    fn find_surface(&self, surface_id: u32) -> (r: Option<usize>)
        ensures
            match r {
                Some(i) => i < self.entries().len() && self.entries()[i as int].0 == surface_id,
                None => !has_surface(self.entries(), surface_id),
            },
    {
        let mut i: usize = 0;
        while i < self.items.len()
            invariant
                i <= self.items@.len(),
                forall|j: int| 0 <= j < i ==> self.entries()[j].0 != surface_id,
            decreases self.items@.len() - i,
        {
            if self.items[i].surface_id == surface_id {
                return Some(i);
            }
            i = i + 1;
        }
        None
    }

    fn find_output(&self, output: &str) -> (r: Option<usize>)
        ensures
            match r {
                Some(i) => i < self.entries().len() && self.entries()[i as int].1 == output@,
                None => !has_output(self.entries(), output@),
            },
    {
        let mut i: usize = 0;
        while i < self.items.len()
            invariant
                i <= self.items@.len(),
                forall|j: int| 0 <= j < i ==> self.entries()[j].1 != output@,
            decreases self.items@.len() - i,
        {
            if same_text(self.items[i].output_name.as_str(), output) {
                return Some(i);
            }
            i = i + 1;
        }
        None
    }

    /// Forgets the surface with the given id; returns whether no surface is
    /// left, in which case there is no display to serve.
    pub fn close(&mut self, surface_id: u32) -> (empty: bool)
        requires
            old(self).wf(),
        ensures
            final(self).wf(),
            final(self).entries() == without_surface(old(self).entries(), surface_id),
            empty == (final(self).entries().len() == 0),
    {
        let ghost m = self.entries();
        if let Some(i) = self.find_surface(surface_id) {
            self.items.remove(i);
            proof {
                lemma_remove_keeps_wf(m, i as int);
                let c = choose|k: int| 0 <= k < m.len() && m[k].0 == surface_id;
                assert(c == i);
            }
            assert(self.entries() =~= m.remove(i as int));
        }
        self.items.len() == 0
    }

    /// Forgets the surface of a display that went away, found by the
    /// display's id; returns that surface's id, if there was one.
    pub fn detach_output(&mut self, output: &str) -> (removed: Option<u32>)
        requires
            old(self).wf(),
        ensures
            final(self).wf(),
            final(self).entries() == without_output(old(self).entries(), output@),
            match removed {
                Some(sid) => exists|i: int|
                    0 <= i < old(self).entries().len() && old(self).entries()[i].0 == sid
                        && old(self).entries()[i].1 == output@,
                None => !has_output(old(self).entries(), output@),
            },
    {
        let ghost m = self.entries();
        if let Some(i) = self.find_output(output) {
            let sid = self.items[i].surface_id;
            self.items.remove(i);
            proof {
                lemma_remove_keeps_wf(m, i as int);
                let c = choose|k: int| 0 <= k < m.len() && m[k].1 == output@;
                assert(c == i);
            }
            assert(self.entries() =~= m.remove(i as int));
            Some(sid)
        } else {
            None
        }
    }

    /// Records a new surface for a display, replacing any surface that had
    /// the same id or stood on the same display. Its size is not known yet.
    pub fn attach(&mut self, surface_id: u32, output_name: String)
        requires
            old(self).wf(),
        ensures
            final(self).wf(),
            final(self).entries() == without_output(
                without_surface(old(self).entries(), surface_id),
                output_name@,
            ).push((surface_id, output_name@, 0u32, 0u32, true)),
    {
        let _ = self.close(surface_id);
        let _ = self.detach_output(output_name.as_str());
        let ghost m = self.entries();
        self.items.push(
            SurfaceState { surface_id, output_name, width: 0, height: 0, first_configure: true },
        );
        assert(self.entries() =~= m.push(self.entries().last()));
        assert(!has_surface(m, surface_id)) by {
            lemma_without_surface_drops(old(self).entries(), surface_id);
            lemma_without_output_keeps(without_surface(old(self).entries(), surface_id), output_name@, surface_id);
        }
        assert(!has_output(m, self.entries().last().1)) by {
            lemma_without_output_drops(without_surface(old(self).entries(), surface_id), output_name@);
        }
    }

    /// Stores the size the display server gave a surface and marks its
    /// first size as received; returns whether the surface is known.
    pub fn configure(&mut self, surface_id: u32, width: u32, height: u32) -> (found: bool)
        requires
            old(self).wf(),
        ensures
            final(self).wf(),
            final(self).entries() == sized(old(self).entries(), surface_id, width, height),
            found == has_surface(old(self).entries(), surface_id),
    {
        let ghost m = self.entries();
        match self.find_surface(surface_id) {
            Some(i) => {
                let name = self.items[i].output_name.clone();
                self.items.set(
                    i,
                    SurfaceState {
                        surface_id,
                        output_name: name,
                        width,
                        height,
                        first_configure: false,
                    },
                );
                assert(self.entries() =~= sized(m, surface_id, width, height));
                true
            },
            None => {
                assert(self.entries() =~= sized(m, surface_id, width, height));
                false
            },
        }
    }

    /// Size and display id of a surface, if it is known.
    pub fn lookup(&self, surface_id: u32) -> (r: Option<(u32, u32, String)>)
        requires
            self.wf(),
        ensures
            match r {
                Some((w, h, name)) => exists|i: int|
                    0 <= i < self.entries().len() && self.entries()[i] == (
                        surface_id,
                        name@,
                        w,
                        h,
                        self.entries()[i].4,
                    ),
                None => !has_surface(self.entries(), surface_id),
            },
    {
        match self.find_surface(surface_id) {
            Some(i) => {
                let it = &self.items[i];
                Some((it.width, it.height, it.output_name.clone()))
            },
            None => None,
        }
    }

    /// Size and display id of a surface that is ready to draw: known, and
    /// given a size with no zero side.
    pub fn drawable(&self, surface_id: u32) -> (r: Option<(u32, u32, String)>)
        requires
            self.wf(),
        ensures
            match r {
                Some((w, h, name)) => w > 0 && h > 0 && exists|i: int|
                    0 <= i < self.entries().len() && self.entries()[i] == (
                        surface_id,
                        name@,
                        w,
                        h,
                        self.entries()[i].4,
                    ),
                None => forall|i: int|
                    0 <= i < self.entries().len() && self.entries()[i].0 == surface_id ==> (
                    self.entries()[i].2 == 0 || self.entries()[i].3 == 0),
            },
    {
        match self.find_surface(surface_id) {
            Some(i) => {
                let it = &self.items[i];
                if it.width == 0 || it.height == 0 {
                    None
                } else {
                    Some((it.width, it.height, it.output_name.clone()))
                }
            },
            None => None,
        }
    }

    /// Number of surfaces.
    pub fn len(&self) -> (n: usize)
        ensures
            n == self.entries().len(),
    {
        self.items.len()
    }
}

proof fn lemma_remove_keeps_wf(m: Seq<SurfaceEntry>, i: int)
    requires
        surfaces_wf(m),
        0 <= i < m.len(),
    ensures
        surfaces_wf(m.remove(i)),
{
    let r = m.remove(i);
    assert forall|a: int, b: int|
        0 <= a < r.len() && 0 <= b < r.len() && a != b implies r[a].0 != r[b].0 && r[a].1
        != r[b].1 by {
        let ia = if a < i { a } else { a + 1 };
        let ib = if b < i { b } else { b + 1 };
        assert(r[a] == m[ia] && r[b] == m[ib]);
    }
}

proof fn lemma_without_surface_drops(m: Seq<SurfaceEntry>, surface_id: u32)
    requires
        surfaces_wf(m),
    ensures
        !has_surface(without_surface(m, surface_id), surface_id),
        forall|e: SurfaceEntry|
            without_surface(m, surface_id).contains(e) ==> m.contains(e),
{
    if has_surface(m, surface_id) {
        let c = choose|k: int| 0 <= k < m.len() && m[k].0 == surface_id;
        let r = m.remove(c);
        assert forall|k: int| 0 <= k < r.len() implies r[k].0 != surface_id by {
            let ik = if k < c { k } else { k + 1 };
            assert(r[k] == m[ik]);
        }
        assert forall|e: SurfaceEntry| r.contains(e) implies m.contains(e) by {
            let k = choose|k: int| 0 <= k < r.len() && r[k] == e;
            let ik = if k < c { k } else { k + 1 };
            assert(r[k] == m[ik]);
        }
    }
}

proof fn lemma_without_output_drops(m: Seq<SurfaceEntry>, output: Seq<char>)
    requires
        surfaces_wf(m),
    ensures
        !has_output(without_output(m, output), output),
{
    if has_output(m, output) {
        let c = choose|k: int| 0 <= k < m.len() && m[k].1 == output;
        let r = m.remove(c);
        assert forall|k: int| 0 <= k < r.len() implies r[k].1 != output by {
            let ik = if k < c { k } else { k + 1 };
            assert(r[k] == m[ik]);
        }
    }
}

proof fn lemma_without_output_keeps(m: Seq<SurfaceEntry>, output: Seq<char>, surface_id: u32)
    requires
        !has_surface(m, surface_id),
    ensures
        !has_surface(without_output(m, output), surface_id),
{
    if has_output(m, output) {
        let c = choose|k: int| 0 <= k < m.len() && m[k].1 == output;
        let r = m.remove(c);
        assert forall|k: int| 0 <= k < r.len() implies r[k].0 != surface_id by {
            let ik = if k < c { k } else { k + 1 };
            assert(r[k] == m[ik]);
        }
    }
}

} // verus!
