use vstd::prelude::*;

verus! {

/// One open window: its identifier and the serial number it was opened under.
struct WindowEntry {
    label: String,
    serial: u64,
}

/// What opening a window under an identifier takes: the window to close
/// first, if one is open under it, and the serial of the one to build.
#[derive(Clone, Copy, PartialEq, Eq, Structural, Debug)]
pub struct OpenPlan {
    pub close: Option<u64>,
    pub create: u64,
}

/// Number of entries in `s` opened under `label`.
pub open spec fn count_label(s: Seq<(Seq<char>, u64)>, label: Seq<char>) -> nat
    decreases s.len(),
{
    if s.len() == 0 {
        0
    } else {
        count_label(s.drop_last(), label) + if s.last().0 == label {
            1nat
        } else {
            0nat
        }
    }
}

/// The serial of the window open under `label`, if there is one.
pub open spec fn serial_of(s: Seq<(Seq<char>, u64)>, label: Seq<char>) -> Option<u64> {
    if exists|i: int| 0 <= i < s.len() && s[i].0 == label {
        let i = choose|i: int| 0 <= i < s.len() && s[i].0 == label;
        Some(s[i].1)
    } else {
        None
    }
}

/// The entries of `s` that are not under `label`, in order.
pub open spec fn without_label(s: Seq<(Seq<char>, u64)>, label: Seq<char>) -> Seq<
    (Seq<char>, u64),
> {
    s.filter(keeps_off(label))
}

/// Whether an entry is not under `label`.
pub open spec fn keeps_off(label: Seq<char>) -> spec_fn((Seq<char>, u64)) -> bool {
    |e: (Seq<char>, u64)| e.0 != label
}

/// The set of windows an application has open, each under an identifier of
/// its own. Opening under an identifier that is taken replaces that window.
pub struct WindowRegistry {
    entries: Vec<WindowEntry>,
    next_serial: u64,
}

impl View for WindowRegistry {
    type V = Seq<(Seq<char>, u64)>;

    closed spec fn view(&self) -> Seq<(Seq<char>, u64)> {
        self.entries@.map_values(|e: WindowEntry| (e.label@, e.serial))
    }
}

impl WindowRegistry {
    /// The serial that the next window opened will get.
    pub closed spec fn next_serial_spec(&self) -> u64 {
        self.next_serial
    }

    /// Identifiers are unique, and every serial handed out lies below the next one.
    pub open spec fn wf(&self) -> bool {
        &&& forall|i: int, j: int|
            0 <= i < j < self@.len() ==> #[trigger] self@[i].0 != #[trigger] self@[j].0
        &&& forall|i: int| 0 <= i < self@.len() ==> #[trigger] self@[i].1 < self.next_serial_spec()
    }

    pub fn new() -> (r: Self)
        ensures
            r.wf(),
            r@.len() == 0,
            r.next_serial_spec() == 0,
    {
        WindowRegistry { entries: Vec::new(), next_serial: 0 }
    }

    /// The serial that the next window opened will get; `open` needs it
    /// below `u64::MAX`.
    pub fn next_serial(&self) -> (r: u64)
        ensures
            r == self.next_serial_spec(),
    {
        self.next_serial
    }

    fn position(&self, label: &String) -> (r: Option<usize>)
        ensures
            match r {
                Some(i) => i < self@.len() && self@[i as int].0 == label@,
                None => forall|i: int| 0 <= i < self@.len() ==> self@[i].0 != label@,
            },
    {
        let mut i: usize = 0;
        while i < self.entries.len()
            invariant
                i <= self.entries@.len(),
                forall|k: int| 0 <= k < i ==> self@[k].0 != label@,
            decreases self.entries@.len() - i,
        {
            if self.entries[i].label == *label {
                return Some(i);
            }
            i = i + 1;
        }
        None
    }

    /// The serial of the window open under `label`, if there is one.
    pub fn find(&self, label: &str) -> (r: Option<u64>)
        requires
            self.wf(),
        ensures
            r == serial_of(self@, label@),
    {
        let key = label.to_owned();
        match self.position(&key) {
            Some(i) => {
                proof {
                    lemma_serial_at(self@, i as int);
                }
                Some(self.entries[i].serial)
            },
            None => None,
        }
    }

    /// Forgets the window open under `label`, and returns its serial.
    pub fn close(&mut self, label: &str) -> (r: Option<u64>)
        requires
            old(self).wf(),
        ensures
            final(self).wf(),
            r == serial_of(old(self)@, label@),
            final(self)@ == without_label(old(self)@, label@),
            final(self).next_serial_spec() == old(self).next_serial_spec(),
            count_label(final(self)@, label@) == 0,
    {
        let key = label.to_owned();
        match self.position(&key) {
            Some(i) => {
                proof {
                    lemma_serial_at(self@, i as int);
                }
                let ghost before = self@;
                let entry = self.entries.remove(i);
                proof {
                    assert(self@ =~= before.remove(i as int));
                    lemma_remove_unique(before, i as int);
                }
                Some(entry.serial)
            },
            None => {
                proof {
                    lemma_filter_keeps_all(self@, label@);
                    lemma_count_absent(self@, label@);
                }
                None
            },
        }
    }

    /// Replaces whatever is open under `label` by a new window: the old one
    /// is to be closed, the new one is built under a fresh serial. Afterwards
    /// exactly one window is open under `label`.
    pub fn open(&mut self, label: &str) -> (r: OpenPlan)
        requires
            old(self).wf(),
            old(self).next_serial_spec() < u64::MAX,
        ensures
            final(self).wf(),
            r.close == serial_of(old(self)@, label@),
            r.create == old(self).next_serial_spec(),
            final(self)@ == without_label(old(self)@, label@).push((label@, r.create)),
            final(self).next_serial_spec() == old(self).next_serial_spec() + 1,
            count_label(final(self)@, label@) == 1,
            serial_of(final(self)@, label@) == Some(r.create),
    {
        let close = self.close(label);
        let create = self.next_serial;
        let ghost before = self@;
        self.entries.push(WindowEntry { label: label.to_owned(), serial: create });
        self.next_serial = create + 1;
        proof {
            assert(self@ =~= before.push((label@, create)));
            assert(self@.drop_last() =~= before);
            assert(self@[self@.len() - 1].0 == label@);
            lemma_serial_at(self@, self@.len() - 1);
        }
        OpenPlan { close, create }
    }
}

proof fn lemma_serial_at(s: Seq<(Seq<char>, u64)>, i: int)
    requires
        0 <= i < s.len(),
        forall|a: int, b: int| 0 <= a < b < s.len() ==> #[trigger] s[a].0 != #[trigger] s[b].0,
    ensures
        serial_of(s, s[i].0) == Some(s[i].1),
{
    let j = choose|j: int| 0 <= j < s.len() && s[j].0 == s[i].0;
    if j < i {
        assert(s[j].0 != s[i].0);
    } else if i < j {
        assert(s[i].0 != s[j].0);
    }
}

proof fn lemma_count_absent(s: Seq<(Seq<char>, u64)>, label: Seq<char>)
    requires
        forall|i: int| 0 <= i < s.len() ==> s[i].0 != label,
    ensures
        count_label(s, label) == 0,
    decreases s.len(),
{
    if s.len() > 0 {
        lemma_count_absent(s.drop_last(), label);
    }
}

proof fn lemma_filter_keeps_all(s: Seq<(Seq<char>, u64)>, label: Seq<char>)
    requires
        forall|i: int| 0 <= i < s.len() ==> s[i].0 != label,
    ensures
        without_label(s, label) == s,
    decreases s.len(),
{
    reveal(Seq::filter);
    if s.len() > 0 {
        lemma_filter_keeps_all(s.drop_last(), label);
        assert(s.drop_last().push(s.last()) =~= s);
    }
}

proof fn lemma_remove_unique(s: Seq<(Seq<char>, u64)>, i: int)
    requires
        0 <= i < s.len(),
        forall|a: int, b: int| 0 <= a < b < s.len() ==> #[trigger] s[a].0 != #[trigger] s[b].0,
    ensures
        s.remove(i) == without_label(s, s[i].0),
        count_label(s.remove(i), s[i].0) == 0,
    decreases s.len(),
{
    let label = s[i].0;
    reveal(Seq::filter);
    if i == s.len() - 1 {
        assert(s.remove(i) =~= s.drop_last());
        assert forall|k: int| 0 <= k < s.drop_last().len() implies s.drop_last()[k].0 != label by {
            assert(s[k].0 != s[i].0);
        }
        lemma_filter_keeps_all(s.drop_last(), label);
        lemma_count_absent(s.drop_last(), label);
    } else {
        let init = s.drop_last();
        assert(init[i] == s[i]);
        lemma_remove_unique(init, i);
        assert(s.remove(i) =~= init.remove(i).push(s.last()));
        assert(s.last().0 != label) by {
            assert(s[i].0 != s[s.len() - 1].0);
        }
        assert(s.remove(i).drop_last() =~= init.remove(i));
    }
}

/// Taking out entries under a label that none has changes nothing.
pub proof fn lemma_without_absent(s: Seq<(Seq<char>, u64)>, label: Seq<char>)
    ensures
        without_label(without_label(s, label), label) == without_label(s, label),
{
    let t = without_label(s, label);
    assert forall|i: int| 0 <= i < t.len() implies t[i].0 != label by {
        s.lemma_filter_pred(keeps_off(label), i);
    }
    lemma_filter_keeps_all(t, label);
}

/// In a well-formed registry at most one window is open under any
/// identifier.
pub proof fn lemma_at_most_one_per_label(r: &WindowRegistry, label: Seq<char>)
    requires
        r.wf(),
    ensures
        count_label(r@, label) <= 1,
{
    lemma_unique_count(r@, label);
}

proof fn lemma_unique_count(s: Seq<(Seq<char>, u64)>, label: Seq<char>)
    requires
        forall|i: int, j: int| 0 <= i < j < s.len() ==> #[trigger] s[i].0 != #[trigger] s[j].0,
    ensures
        count_label(s, label) <= 1,
        count_label(s, label) == 1 ==> exists|i: int| 0 <= i < s.len() && s[i].0 == label,
    decreases s.len(),
{
    if s.len() > 0 {
        let init = s.drop_last();
        lemma_unique_count(init, label);
        if s.last().0 == label && count_label(init, label) == 1 {
            let i = choose|i: int| 0 <= i < init.len() && init[i].0 == label;
            assert(s[i].0 != s[s.len() - 1].0);
        }
        if count_label(s, label) == 1 && count_label(init, label) == 1 {
            let i = choose|i: int| 0 <= i < init.len() && init[i].0 == label;
            assert(s[i].0 == label);
        }
    }
}

/// Taking out the entries under `label` leaves none under it.
pub proof fn lemma_without_leaves_none(s: Seq<(Seq<char>, u64)>, label: Seq<char>)
    ensures
        count_label(without_label(s, label), label) == 0,
{
    let t = without_label(s, label);
    assert forall|i: int| 0 <= i < t.len() implies t[i].0 != label by {
        s.lemma_filter_pred(keeps_off(label), i);
    }
    lemma_count_absent(t, label);
}

/// Replacing whatever is under `label` by one new entry leaves exactly one
/// under it, whatever the entries were before: opening under an identifier
/// again and again never piles windows up.
pub proof fn lemma_replace_leaves_one(s: Seq<(Seq<char>, u64)>, label: Seq<char>, serial: u64)
    ensures
        count_label(without_label(s, label).push((label, serial)), label) == 1,
{
    let t = without_label(s, label);
    lemma_without_leaves_none(s, label);
    assert(t.push((label, serial)).drop_last() =~= t);
}

} // verus!
