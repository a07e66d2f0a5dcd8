use vstd::prelude::*;

use crate::text::{copy_strings, texts};

verus! {

/// The tags of an installed program, as text.
pub open spec fn tags_view(tags: Vec<String>) -> Seq<Seq<char>> {
    texts(tags@)
}

/// The programs recorded in an association list, later entries over earlier
/// ones.
pub open spec fn entries_map(s: Seq<(String, Vec<String>)>) -> Map<Seq<char>, Seq<Seq<char>>>
    decreases s.len(),
{
    if s.len() == 0 {
        Map::empty()
    } else {
        entries_map(s.drop_last()).insert(s.last().0@, tags_view(s.last().1))
    }
}

/// No program occurs twice.
pub open spec fn distinct_keys(s: Seq<(String, Vec<String>)>) -> bool {
    forall|i: int, j: int| 0 <= i < j < s.len() ==> #[trigger] s[i].0@ != #[trigger] s[j].0@
}

proof fn lemma_entries_map(s: Seq<(String, Vec<String>)>)
    requires
        distinct_keys(s),
    ensures
        forall|k: Seq<char>|
            #[trigger] entries_map(s).dom().contains(k) <==> exists|i: int|
                0 <= i < s.len() && s[i].0@ == k,
        forall|i: int| 0 <= i < s.len() ==> #[trigger] entries_map(s)[s[i].0@] == tags_view(s[i].1),
    decreases s.len(),
{
    if s.len() > 0 {
        let p = s.drop_last();
        let n = s.len() - 1;
        let last = s[n];
        assert(entries_map(s) == entries_map(p).insert(last.0@, tags_view(last.1)));
        assert(distinct_keys(p)) by {
            assert forall|a: int, b: int| 0 <= a < b < p.len() implies #[trigger] p[a].0@
                != #[trigger] p[b].0@ by {
                assert(p[a] == s[a] && p[b] == s[b]);
            }
        }
        lemma_entries_map(p);
        assert forall|k: Seq<char>| #[trigger]
            entries_map(s).dom().contains(k) <==> exists|i: int| 0 <= i < s.len() && s[i].0@ == k by {
            if entries_map(s).dom().contains(k) {
                if k == last.0@ {
                    assert(s[n].0@ == k);
                } else {
                    assert(entries_map(p).dom().contains(k));
                    let i = choose|i: int| 0 <= i < p.len() && p[i].0@ == k;
                    assert(p[i] == s[i]);
                    assert(s[i].0@ == k);
                }
            }
            if exists|i: int| 0 <= i < s.len() && s[i].0@ == k {
                let i = choose|i: int| 0 <= i < s.len() && s[i].0@ == k;
                if i < n {
                    assert(p[i] == s[i]);
                    assert(p[i].0@ == k);
                    assert(entries_map(p).dom().contains(k));
                }
            }
        }
        assert forall|i: int| 0 <= i < s.len() implies #[trigger] entries_map(s)[s[i].0@]
            == tags_view(s[i].1) by {
            if i < n {
                assert(p[i] == s[i]);
                assert(s[i].0@ != s[n].0@);
                assert(entries_map(p)[p[i].0@] == tags_view(p[i].1));
            }
        }
    }
}

proof fn lemma_entries_map_update(s: Seq<(String, Vec<String>)>, i: int, e: (String, Vec<String>))
    requires
        distinct_keys(s),
        0 <= i < s.len(),
        s[i].0@ == e.0@,
    ensures
        distinct_keys(s.update(i, e)),
        entries_map(s.update(i, e)) =~= entries_map(s).insert(e.0@, tags_view(e.1)),
{
    let t = s.update(i, e);
    assert(distinct_keys(t)) by {
        assert forall|a: int, b: int| 0 <= a < b < t.len() implies #[trigger] t[a].0@
            != #[trigger] t[b].0@ by {
            assert(s[a].0@ != s[b].0@);
        }
    }
    lemma_entries_map(s);
    lemma_entries_map(t);
    assert forall|k: Seq<char>| #[trigger]
        entries_map(t).dom().contains(k) <==> entries_map(s).insert(e.0@, tags_view(e.1)).dom().contains(k) by {
        if exists|j: int| 0 <= j < t.len() && t[j].0@ == k {
            let j = choose|j: int| 0 <= j < t.len() && t[j].0@ == k;
            assert(s[j].0@ == k || j == i);
        }
        if exists|j: int| 0 <= j < s.len() && s[j].0@ == k {
            let j = choose|j: int| 0 <= j < s.len() && s[j].0@ == k;
            assert(t[j].0@ == k || j == i);
        }
    }
    assert forall|k: Seq<char>| #[trigger] entries_map(t).dom().contains(k) implies entries_map(t)[k]
        == entries_map(s).insert(e.0@, tags_view(e.1))[k] by {
        let j = choose|j: int| 0 <= j < t.len() && t[j].0@ == k;
        assert(entries_map(t)[t[j].0@] == tags_view(t[j].1));
        if j != i {
            assert(entries_map(s)[s[j].0@] == tags_view(s[j].1));
        }
    }
}

proof fn lemma_entries_map_remove(s: Seq<(String, Vec<String>)>, i: int)
    requires
        distinct_keys(s),
        0 <= i < s.len(),
    ensures
        distinct_keys(s.remove(i)),
        entries_map(s.remove(i)) =~= entries_map(s).remove(s[i].0@),
{
    let t = s.remove(i);
    let key = s[i].0@;
    assert(distinct_keys(t)) by {
        assert forall|a: int, b: int| 0 <= a < b < t.len() implies #[trigger] t[a].0@
            != #[trigger] t[b].0@ by {
            let a2 = if a < i { a } else { a + 1 };
            let b2 = if b < i { b } else { b + 1 };
            assert(t[a] == s[a2] && t[b] == s[b2]);
            assert(s[a2].0@ != s[b2].0@);
        }
    }
    lemma_entries_map(s);
    lemma_entries_map(t);
    assert forall|k: Seq<char>| #[trigger]
        entries_map(t).dom().contains(k) <==> entries_map(s).remove(key).dom().contains(k) by {
        if exists|j: int| 0 <= j < t.len() && t[j].0@ == k {
            let j = choose|j: int| 0 <= j < t.len() && t[j].0@ == k;
            let j2 = if j < i { j } else { j + 1 };
            assert(t[j] == s[j2]);
            assert(s[j2].0@ != key);
        }
        if entries_map(s).remove(key).dom().contains(k) {
            let j = choose|j: int| 0 <= j < s.len() && s[j].0@ == k;
            assert(j != i);
            let j2 = if j < i { j } else { j - 1 };
            assert(t[j2] == s[j]);
        }
    }
    assert forall|k: Seq<char>| #[trigger] entries_map(t).dom().contains(k) implies entries_map(t)[k]
        == entries_map(s).remove(key)[k] by {
        let j = choose|j: int| 0 <= j < t.len() && t[j].0@ == k;
        let j2 = if j < i { j } else { j + 1 };
        assert(t[j] == s[j2]);
        assert(entries_map(t)[t[j].0@] == tags_view(t[j].1));
        assert(entries_map(s)[s[j2].0@] == tags_view(s[j2].1));
    }
}

/// The programs installed through dpm, with the tags of each.
///
/// Each program occurs once; the contracts see the list as a map from
/// program to tags.
pub struct InstalledPrograms {
    entries: Vec<(String, Vec<String>)>,
}

impl View for InstalledPrograms {
    type V = Map<Seq<char>, Seq<Seq<char>>>;

    closed spec fn view(&self) -> Map<Seq<char>, Seq<Seq<char>>> {
        entries_map(self.entries@)
    }
}

impl InstalledPrograms {
    /// No program occurs twice.
    #[verifier::type_invariant]
    spec fn no_program_twice(&self) -> bool {
        distinct_keys(self.entries@)
    }

    /// The recorded entries, as the contracts see them.
    pub closed spec fn entry_seq(&self) -> Seq<(String, Vec<String>)> {
        self.entries@
    }

    /// The tags recorded for `program`, if any.
    pub open spec fn lookup(&self, program: Seq<char>) -> Option<Seq<Seq<char>>> {
        if self@.dom().contains(program) {
            Some(self@[program])
        } else {
            None
        }
    }

    /// No program installed.
    pub fn new() -> (r: Self)
        ensures
            r@ == Map::<Seq<char>, Seq<Seq<char>>>::empty(),
    {
        InstalledPrograms { entries: Vec::new() }
    }

    /// The programs of `pairs`, where a later pair for a program replaces an
    /// earlier one.
    pub fn from_entries(pairs: Vec<(String, Vec<String>)>) -> (r: Self)
        ensures
            r@ == entries_map(pairs@),
    {
        let mut r = InstalledPrograms::new();
        let n = pairs.len();
        let mut i: usize = 0;
        while i < n
            invariant
                i <= n,
                n == pairs@.len(),
                r@ == entries_map(pairs@.take(i as int)),
            decreases n - i,
        {
            let program = pairs[i].0.clone();
            let tags = copy_strings(&pairs[i].1, 0, pairs[i].1.len());
            assert(texts(pairs@[i as int].1@).subrange(0, pairs@[i as int].1@.len() as int) =~= texts(
                pairs@[i as int].1@,
            ));
            r.insert(program, tags);
            assert(pairs@.take(i + 1).drop_last() =~= pairs@.take(i as int));
            i = i + 1;
        }
        assert(pairs@.take(n as int) =~= pairs@);
        r
    }

    /// The entries, one per program.
    pub fn entries(&self) -> (r: &Vec<(String, Vec<String>)>)
        ensures
            r@ == self.entry_seq(),
            entries_map(r@) == self@,
            distinct_keys(r@),
    {
        proof {
            use_type_invariant(self);
        }
        &self.entries
    }

    fn find(&self, program: &String) -> (r: Option<usize>)
        ensures
            match r {
                Some(i) => i < self.entries@.len() && self.entries@[i as int].0@ == program@,
                None => !self@.dom().contains(program@),
            },
    {
        proof {
            use_type_invariant(self);
            lemma_entries_map(self.entries@);
        }
        let n = self.entries.len();
        let mut i: usize = 0;
        while i < n
            invariant
                i <= n,
                n == self.entries@.len(),
                forall|j: int| 0 <= j < i ==> self.entries@[j].0@ != program@,
            decreases n - i,
        {
            if self.entries[i].0 == *program {
                return Some(i);
            }
            i = i + 1;
        }
        None
    }

    /// The tags recorded for `program`, if it is installed.
    pub fn get(&self, program: &String) -> (r: Option<&Vec<String>>)
        ensures
            r is Some <==> self.lookup(program@) is Some,
            r matches Some(tags) ==> self.lookup(program@) == Some(tags_view(*tags)),
    {
        proof {
            use_type_invariant(self);
            lemma_entries_map(self.entries@);
        }
        match self.find(program) {
            Some(i) => Some(&self.entries[i].1),
            None => None,
        }
    }

    /// Records `tags` for `program`, replacing what was recorded for it.
    pub fn insert(&mut self, program: String, tags: Vec<String>)
        ensures
            final(self)@ == old(self)@.insert(program@, tags_view(tags)),
    {
        proof {
            use_type_invariant(&*self);
        }
        let found = self.find(&program);
        let mut entries: Vec<(String, Vec<String>)> = Vec::new();
        std::mem::swap(&mut entries, &mut self.entries);
        match found {
            Some(i) => {
                proof {
                    lemma_entries_map_update(entries@, i as int, (program, tags));
                }
                entries.set(i, (program, tags));
            },
            None => {
                proof {
                    lemma_entries_map(entries@);
                }
                let ghost before = entries@;
                entries.push((program, tags));
                proof {
                    assert(entries@.drop_last() =~= before);
                    assert forall|a: int, b: int| 0 <= a < b < entries@.len() implies #[trigger] entries@[a].0@
                        != #[trigger] entries@[b].0@ by {
                        if b == before.len() {
                            assert(before[a].0@ != program@);
                        } else {
                            assert(before[a].0@ != before[b].0@);
                        }
                    }
                }
            },
        }
        self.entries = entries;
    }

    /// Forgets `program`.
    pub fn remove(&mut self, program: &String)
        ensures
            final(self)@ == old(self)@.remove(program@),
    {
        proof {
            use_type_invariant(&*self);
        }
        match self.find(program) {
            Some(i) => {
                let mut entries: Vec<(String, Vec<String>)> = Vec::new();
                std::mem::swap(&mut entries, &mut self.entries);
                proof {
                    lemma_entries_map_remove(entries@, i as int);
                }
                entries.remove(i);
                self.entries = entries;
            },
            None => {
                assert(self@.remove(program@) =~= self@);
            },
        }
    }
}

/// What is recorded for a program is what `get` reads back for it, and
/// recording it leaves every other program as `get` read it before.
pub proof fn recorded_tags_are_read_back(
    before: InstalledPrograms,
    after: InstalledPrograms,
    program: Seq<char>,
    tags: Seq<Seq<char>>,
    other: Seq<char>,
)
    requires
        after@ == before@.insert(program, tags),
    ensures
        after.lookup(program) == Some(tags),
        other != program ==> after.lookup(other) == before.lookup(other),
{
}

/// A program removed is one `get` no longer finds, and every other program
/// reads back as before.
pub proof fn removed_programs_are_gone(
    before: InstalledPrograms,
    after: InstalledPrograms,
    program: Seq<char>,
    other: Seq<char>,
)
    requires
        after@ == before@.remove(program),
    ensures
        after.lookup(program) is None,
        other != program ==> after.lookup(other) == before.lookup(other),
{
}

/// The configuration of dpm: its version and what it has installed.
pub struct AppConfig {
    pub version: String,
    pub installed_programs: InstalledPrograms,
}

impl AppConfig {
    /// A fresh configuration of dpm at `version`: nothing installed.
    pub fn new(version: &str) -> (r: Self)
        ensures
            r.version@ == version@,
            r.installed_programs@ == Map::<Seq<char>, Seq<Seq<char>>>::empty(),
    {
        AppConfig { version: String::from_str(version), installed_programs: InstalledPrograms::new() }
    }
}

} // verus!
