use vstd::prelude::*;
use vstd::std_specs::iter::IteratorSpec;

use crate::cfg::GlobalConfig;
use crate::logmsg::{interned, LogMessage, NVHandle, ValueRegistry};

verus! {

broadcast use {
    vstd::string::axiom_spec_iter,
    vstd::string::next_postcondition,
    vstd::seq_lib::group_seq_properties,
};

/// The pieces of `s` between commas, in order: one more piece than there are
/// commas, each kept exactly as it stands (no trimming).
pub open spec fn split_commas(s: Seq<char>) -> Seq<Seq<char>>
    decreases s.len(),
{
    if s.len() == 0 {
        seq![Seq::empty()]
    } else {
        let rest = split_commas(s.drop_last());
        if s.last() == ',' {
            rest.push(Seq::empty())
        } else {
            rest.update(rest.len() - 1, rest.last().push(s.last()))
        }
    }
}

proof fn lemma_split_nonempty(s: Seq<char>)
    ensures
        split_commas(s).len() >= 1,
    decreases s.len(),
{
    if s.len() > 0 {
        lemma_split_nonempty(s.drop_last());
    }
}

/// Relies on String::push: the character is added at the end.
#[verifier::external_body]
fn push_char(s: &mut String, c: char)
    ensures
        final(s)@ == old(s)@.push(c),
{
    s.push(c)
}

/// Cuts `s` at each comma.
pub fn split_list(s: &str) -> (r: Vec<String>)
    ensures
        texts(r@) == split_commas(s@),
{
    let mut done: Vec<String> = Vec::new();
    let mut current = String::new();
    let mut chars = s.chars();
    let ghost mut k: int = 0;
    loop
        invariant
            0 <= k <= s@.len(),
            chars.obeys_prophetic_iter_laws(),
            chars.remaining() == s@.skip(k),
            texts(done@).push(current@) == split_commas(s@.take(k)),
        ensures
            texts(done@).push(current@) == split_commas(s@),
        decreases s@.len() - k,
    {
        let ghost before = s@.take(k);
        match chars.next() {
            Some(c) => {
                proof {
                    lemma_split_nonempty(before);
                    assert(s@.take(k + 1).drop_last() == before);
                    assert(s@.take(k + 1).last() == c);
                }
                if c == ',' {
                    let piece = current;
                    done.push(piece);
                    current = String::new();
                    proof {
                        assert(texts(done@) == split_commas(before));
                    }
                } else {
                    push_char(&mut current, c);
                }
                proof {
                    k = k + 1;
                }
                assert(texts(done@).push(current@) =~= split_commas(s@.take(k)));
            },
            None => {
                assert(s@.take(k) == s@);
                break;
            },
        }
    }
    let ghost pre = done@;
    let ghost cur = current@;
    done.push(current);
    assert(texts(done@) =~= texts(pre).push(cur));
    done
}


/// The text of each string of `list`.
pub open spec fn texts(list: Seq<String>) -> Seq<Seq<char>> {
    list.map_values(|p: String| p@)
}

/// Whether `v` is, as text, one of the strings of `list`.
pub open spec fn holds_text(list: Seq<String>, v: Seq<char>) -> bool {
    texts(list).contains(v)
}

proof fn lemma_push_to_set(s: Seq<Seq<char>>, x: Seq<char>)
    ensures
        s.push(x).to_set() == s.to_set().insert(x),
{
    assert forall|a: Seq<char>| s.push(x).contains(a) <==> s.contains(a) || a == x by {
        if s.push(x).contains(a) && a != x {
            let j = choose|j: int| 0 <= j < s.push(x).len() && s.push(x)[j] == a;
            assert(s[j] == a);
        }
        if s.contains(a) {
            let j = choose|j: int| 0 <= j < s.len() && s[j] == a;
            assert(s.push(x)[j] == a);
        }
        if a == x {
            assert(s.push(x)[s.len() as int] == a);
        }
    }
    assert(s.push(x).to_set() =~= s.to_set().insert(x));
}

/// Whether `list` holds `v`, compared as text.
fn contains_text(list: &Vec<String>, v: &String) -> (r: bool)
    ensures
        r == holds_text(list@, v@),
{
    let mut i: usize = 0;
    while i < list.len()
        invariant
            i <= list@.len(),
            forall|k: int| 0 <= k < i ==> list@[k]@ != v@,
        decreases list@.len() - i,
    {
        if list[i] == *v {
            assert(texts(list@)[i as int] == v@);
            return true;
        }
        i = i + 1;
    }
    proof {
        if holds_text(list@, v@) {
            let j = choose|j: int| 0 <= j < list@.len() && texts(list@)[j] == v@;
            assert(list@[j]@ == v@);
        }
    }
    false
}

/// What every filter offers the host: options are set first, then the
/// filter is initialized once, then it evaluates records.
pub trait RustFilter: Sized {
    /// Whether the filter, as it stands, admits `msg`.
    spec fn admits(&self, msg: &LogMessage) -> bool;

    /// Makes the filter ready for its first evaluation.
    fn init(&mut self, cfg: &GlobalConfig);

    /// Admits (`true`) or rejects (`false`) a record; changes nothing.
    fn eval(&self, msg: &LogMessage) -> (r: bool)
        ensures
            r == self.admits(msg),
    ;

    /// Takes one configuration option; a key the filter does not know is
    /// ignored.
    fn set_option(&mut self, key: String, value: String, registry: &mut ValueRegistry)
        requires
            old(registry).wf(),
            old(registry)@.len() < u32::MAX,
        ensures
            final(registry).wf(),
    ;
}

/// A filter that admits every record.
pub struct DummyFilter {
    pub value: i32,
}

impl DummyFilter {
    pub fn new() -> (r: DummyFilter)
        ensures
            r.value == 1,
    {
        DummyFilter { value: 1 }
    }
}

impl RustFilter for DummyFilter {
    open spec fn admits(&self, msg: &LogMessage) -> bool {
        true
    }

    fn init(&mut self, cfg: &GlobalConfig)
        ensures
            *final(self) == *old(self),
    {
    }

    fn eval(&self, msg: &LogMessage) -> (r: bool)
        ensures
            r,
    {
        true
    }

    fn set_option(&mut self, key: String, value: String, registry: &mut ValueRegistry)
        ensures
            *final(self) == *old(self),
            *final(registry) == *old(registry),
    {
    }
}

/// A filter that admits a record when the value of one field is one of the
/// entries of a comma-separated list.
pub struct InListFilter {
    orig_list: String,
    list: Vec<String>,
    field: NVHandle,
}

impl InListFilter {
    /// The list as it was configured, commas included.
    pub closed spec fn raw_list(&self) -> Seq<char> {
        self.orig_list@
    }

    /// The entries that are looked up.
    pub closed spec fn members(&self) -> Set<Seq<char>> {
        texts(self.list@).to_set()
    }

    /// The handle of the field that is compared.
    pub closed spec fn field(&self) -> NVHandle {
        self.field
    }

    /// No entry is held twice.
    pub closed spec fn wf(&self) -> bool {
        texts(self.list@).no_duplicates()
    }

    /// The entries are exactly the pieces of the configured list.
    pub open spec fn rebuilt(&self) -> bool {
        self.members() == split_commas(self.raw_list()).to_set()
    }

    /// `after` is this filter once `init` has run on it.
    pub open spec fn init_done(&self, after: &Self) -> bool {
        &&& after.wf()
        &&& after.rebuilt()
        &&& after.raw_list() == self.raw_list()
        &&& after.field() == self.field()
    }

    /// `after` is this filter once it took the option `key` = `value`, and
    /// `reg_after` the interning table `reg_before` after that.
    pub open spec fn option_taken(
        &self,
        after: &Self,
        key: Seq<char>,
        value: Seq<char>,
        reg_before: ValueRegistry,
        reg_after: ValueRegistry,
    ) -> bool {
        &&& after.wf() == self.wf()
        &&& after.members() == self.members()
        &&& key == "field"@ ==> after.raw_list() == self.raw_list() && interned(
            reg_before@,
            reg_after@,
            value,
            after.field(),
        )
        &&& key == "list"@ ==> after.raw_list() == value && after.field() == self.field()
            && reg_after == reg_before
        &&& key != "field"@ && key != "list"@ ==> *after == *self && reg_after == reg_before
    }

    /// An empty filter on the field `PROGRAM`.
    pub fn new(registry: &mut ValueRegistry) -> (r: InListFilter)
        requires
            old(registry).wf(),
            old(registry)@.len() < u32::MAX,
        ensures
            r.wf(),
            r.raw_list() == Seq::<char>::empty(),
            r.members() == Set::<Seq<char>>::empty(),
            final(registry).wf(),
            interned(old(registry)@, final(registry)@, "PROGRAM"@, r.field()),
    {
        let handle = LogMessage::get_value_handle(registry, "PROGRAM");
        let r = InListFilter { field: handle, list: Vec::new(), orig_list: String::new() };
        assert(texts(r.list@) =~= Seq::<Seq<char>>::empty());
        r
    }
}

impl RustFilter for InListFilter {
    open spec fn admits(&self, msg: &LogMessage) -> bool {
        self.members().contains(msg.value(self.field()))
    }

    /// Builds the entries from the configured list.
    fn init(&mut self, cfg: &GlobalConfig)
        ensures
            old(self).init_done(final(self)),
    {
        let pieces = split_list(self.orig_list.as_str());
        let ghost target = texts(pieces@);
        let mut list: Vec<String> = Vec::new();
        let mut i: usize = 0;
        while i < pieces.len()
            invariant
                i <= pieces@.len(),
                target == texts(pieces@),
                texts(list@).no_duplicates(),
                texts(list@).to_set() == target.take(i as int).to_set(),
            decreases pieces@.len() - i,
        {
            let ghost before = texts(list@);
            assert(target.take(i + 1) == target.take(i as int).push(target[i as int]));
            proof {
                lemma_push_to_set(target.take(i as int), target[i as int]);
                lemma_push_to_set(before, target[i as int]);
            }
            if !contains_text(&list, &pieces[i]) {
                list.push(pieces[i].clone());
                assert(texts(list@) =~= before.push(target[i as int]));
            } else {
                assert(before.contains(target[i as int]));
                assert(before.to_set().insert(target[i as int]) =~= before.to_set());
            }
            i = i + 1;
        }
        assert(target.take(pieces@.len() as int) == target);
        self.list = list;
    }

    fn eval(&self, msg: &LogMessage) -> (r: bool)
        ensures
            r == self.admits(msg),
    {
        let value = msg.get_value(self.field).to_owned();
        contains_text(&self.list, &value)
    }

    /// `field` names the field to compare (interned at once); `list` sets the
    /// comma-separated list, which `init` turns into entries.
    fn set_option(&mut self, key: String, value: String, registry: &mut ValueRegistry)
        ensures
            old(self).option_taken(final(self), key@, value@, *old(registry), *final(registry)),
    {
        proof {
            reveal_strlit("field");
            reveal_strlit("list");
            assert("field"@.len() == 5);
            assert("list"@.len() == 4);
        }
        if key == "field".to_owned() {
            self.field = LogMessage::get_value_handle(registry, value.as_str());
        } else if key == "list".to_owned() {
            self.orig_list = value;
        }
    }
}


/// One filter of each kind that the library offers.
pub enum FilterImpl {
    Dummy(DummyFilter),
    InList(InListFilter),
}

impl FilterImpl {
    /// `after` is this filter once `init` has run on it.
    pub open spec fn init_done(&self, after: &Self) -> bool {
        match (*self, *after) {
            (FilterImpl::Dummy(d), FilterImpl::Dummy(e)) => d == e,
            (FilterImpl::InList(f), FilterImpl::InList(g)) => f.init_done(&g),
            _ => false,
        }
    }

    /// `after` is this filter once it took the option `key` = `value`, and
    /// `reg_after` the interning table `reg_before` after that.
    pub open spec fn option_taken(
        &self,
        after: &Self,
        key: Seq<char>,
        value: Seq<char>,
        reg_before: ValueRegistry,
        reg_after: ValueRegistry,
    ) -> bool {
        match (*self, *after) {
            (FilterImpl::Dummy(d), FilterImpl::Dummy(e)) => d == e && reg_after == reg_before,
            (FilterImpl::InList(f), FilterImpl::InList(g)) => f.option_taken(
                &g,
                key,
                value,
                reg_before,
                reg_after,
            ),
            _ => false,
        }
    }
}

impl RustFilter for FilterImpl {
    open spec fn admits(&self, msg: &LogMessage) -> bool {
        match self {
            FilterImpl::Dummy(d) => d.admits(msg),
            FilterImpl::InList(f) => f.admits(msg),
        }
    }

    fn init(&mut self, cfg: &GlobalConfig)
        ensures
            old(self).init_done(final(self)),
    {
        match self {
            FilterImpl::Dummy(d) => d.init(cfg),
            FilterImpl::InList(f) => f.init(cfg),
        }
    }

    fn eval(&self, msg: &LogMessage) -> (r: bool)
        ensures
            r == self.admits(msg),
    {
        match self {
            FilterImpl::Dummy(d) => d.eval(msg),
            FilterImpl::InList(f) => f.eval(msg),
        }
    }

    fn set_option(&mut self, key: String, value: String, registry: &mut ValueRegistry)
        ensures
            old(self).option_taken(final(self), key@, value@, *old(registry), *final(registry)),
    {
        match self {
            FilterImpl::Dummy(d) => d.set_option(key, value, registry),
            FilterImpl::InList(f) => f.set_option(key, value, registry),
        }
    }
}

/// A filter as the host holds it, from construction to release.
pub struct RustFilterWrapper {
    pub filter: FilterImpl,
}


/// Initializing twice from the same list gives the same entries, and so the
/// same answer on every record.
pub proof fn lemma_rebuild_idempotent(f: InListFilter, g: InListFilter, h: InListFilter)
    requires
        f.init_done(&g),
        g.init_done(&h),
    ensures
        h.members() == g.members(),
        forall|msg: LogMessage| #[trigger] h.admits(&msg) == g.admits(&msg),
{
}

/// The always-admit filter admits every record, whatever options it took.
pub proof fn lemma_dummy_admits_all(
    d: DummyFilter,
    e: DummyFilter,
    key: Seq<char>,
    value: Seq<char>,
    reg_before: ValueRegistry,
    reg_after: ValueRegistry,
    msg: LogMessage,
)
    requires
        FilterImpl::Dummy(d).option_taken(
            &FilterImpl::Dummy(e),
            key,
            value,
            reg_before,
            reg_after,
        ),
    ensures
        e.admits(&msg),
        e == d,
{
}

/// An option whose key no filter knows changes neither the filter nor the
/// interning table.
pub proof fn lemma_unknown_option_keeps_state(
    before: FilterImpl,
    after: FilterImpl,
    key: Seq<char>,
    value: Seq<char>,
    reg_before: ValueRegistry,
    reg_after: ValueRegistry,
)
    requires
        key != "field"@,
        key != "list"@,
        before.option_taken(&after, key, value, reg_before, reg_after),
    ensures
        after == before,
        reg_after == reg_before,
{
}

} // verus!
