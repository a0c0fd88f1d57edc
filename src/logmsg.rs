use vstd::prelude::*;

verus! {

/// An interned field name: a stable number for each distinct name.
pub type NVHandle = u32;

/// The table that interns field names. The name at position `k` has the
/// handle `k + 1`; handles are never reused or moved.
pub struct ValueRegistry {
    names: Vec<String>,
}

impl View for ValueRegistry {
    type V = Seq<Seq<char>>;

    closed spec fn view(&self) -> Seq<Seq<char>> {
        self.names@.map_values(|s: String| s@)
    }
}

impl ValueRegistry {
    /// No name appears twice, and every name has a handle.
    pub open spec fn wf(&self) -> bool {
        &&& self@.no_duplicates()
        &&& self@.len() <= u32::MAX
    }

    /// An empty table.
    pub fn new() -> (r: ValueRegistry)
        ensures
            r@ == Seq::<Seq<char>>::empty(),
            r.wf(),
    {
        let r = ValueRegistry { names: Vec::new() };
        assert(r@ =~= Seq::<Seq<char>>::empty());
        r
    }

    /// The number of names interned so far; the handles in use are `1..=len`.
    pub fn len(&self) -> (r: usize)
        ensures
            r == self@.len(),
    {
        self.names.len()
    }

    /// The name interned under the handle `h`, if any.
    pub fn name_of(&self, h: NVHandle) -> (r: Option<&str>)
        ensures
            r is None <==> !(1 <= h <= self@.len()),
            r matches Some(n) ==> n@ == self@[h - 1],
    {
        if h >= 1 && (h as usize) <= self.names.len() {
            Some(self.names[(h - 1) as usize].as_str())
        } else {
            None
        }
    }

    /// The handle of `name`, if it was interned already.
    pub fn lookup(&self, name: &str) -> (r: Option<NVHandle>)
        requires
            self.wf(),
        ensures
            r is None <==> !self@.contains(name@),
            r matches Some(h) ==> 1 <= h <= self@.len() && self@[h - 1] == name@,
    {
        let wanted = name.to_owned();
        let mut i: usize = 0;
        while i < self.names.len()
            invariant
                i <= self.names@.len(),
                wanted@ == name@,
                self@.len() == self.names@.len(),
                self@.len() <= u32::MAX,
                forall|k: int| 0 <= k < i ==> self@[k] != name@,
            decreases self.names@.len() - i,
        {
            if self.names[i] == wanted {
                proof {
                    assert(self@[i as int] == self.names@[i as int]@);
                }
                return Some((i + 1) as NVHandle);
            }
            proof {
                assert(self@[i as int] == self.names@[i as int]@);
            }
            i = i + 1;
        }
        None
    }
}

/// `after` is the table `before` once `name` was interned in it, and `h` is
/// the handle that `name` got: an old name keeps its handle, a new one is
/// appended.
pub open spec fn interned(
    before: Seq<Seq<char>>,
    after: Seq<Seq<char>>,
    name: Seq<char>,
    h: NVHandle,
) -> bool {
    &&& 1 <= h <= after.len()
    &&& after[h - 1] == name
    &&& before.contains(name) ==> after == before
    &&& !before.contains(name) ==> after == before.push(name)
}

/// A log record as the filters read it: the value of each field, by handle.
/// Later settings of a field hide earlier ones.
pub struct LogMessage {
    entries: Vec<(NVHandle, String)>,
}

/// The value of the field `h` in `entries`: the last setting of it, or the
/// empty text where it has none.
pub open spec fn value_in(entries: Seq<(NVHandle, String)>, h: NVHandle) -> Seq<char>
    decreases entries.len(),
{
    if entries.len() == 0 {
        Seq::empty()
    } else if entries.last().0 == h {
        entries.last().1@
    } else {
        value_in(entries.drop_last(), h)
    }
}

impl LogMessage {
    /// The value of the field `h`; empty where the field is absent.
    pub closed spec fn value(&self, h: NVHandle) -> Seq<char> {
        value_in(self.entries@, h)
    }

    /// A record with no fields.
    pub fn new() -> (r: LogMessage)
        ensures
            forall|h: NVHandle| #[trigger] r.value(h) == Seq::<char>::empty(),
    {
        LogMessage { entries: Vec::new() }
    }

    /// Gives the field `handle` the value `value`.
    pub fn set_value(&mut self, handle: NVHandle, value: &str)
        ensures
            forall|h: NVHandle| #[trigger]
                final(self).value(h) == if h == handle {
                    value@
                } else {
                    old(self).value(h)
                },
    {
        self.entries.push((handle, value.to_owned()));
        assert(self.entries@.drop_last() == old(self).entries@);
    }

    /// Interns `value_name` and returns its handle: the same handle for the
    /// same name, a new one for a name not seen before.
    pub fn get_value_handle(registry: &mut ValueRegistry, value_name: &str) -> (h: NVHandle)
        requires
            old(registry).wf(),
            old(registry)@.len() < u32::MAX,
        ensures
            final(registry).wf(),
            interned(old(registry)@, final(registry)@, value_name@, h),
    {
        match registry.lookup(value_name) {
            Some(h) => h,
            None => {
                let ghost before = registry@;
                registry.names.push(value_name.to_owned());
                let h = registry.names.len() as NVHandle;
                proof {
                    assert(registry@ =~= before.push(value_name@));
                    assert forall|a: int, b: int|
                        0 <= a < b < registry@.len() implies registry@[a] != registry@[b] by {
                        if b == before.len() {
                            assert(before.contains(before[a]));
                        }
                    }
                }
                h
            },
        }
    }

    /// The value of the field `handle`; empty where the field is absent.
    pub fn get_value(&self, handle: NVHandle) -> (r: &str)
        ensures
            r@ == self.value(handle),
    {
        let mut i: usize = self.entries.len();
        assert(self.entries@.take(i as int) =~= self.entries@);
        while i > 0
            invariant
                i <= self.entries@.len(),
                value_in(self.entries@, handle) == value_in(self.entries@.take(i as int), handle),
            decreases i,
        {
            let ghost prefix = self.entries@.take(i as int);
            assert(prefix.drop_last() == self.entries@.take(i - 1));
            if self.entries[i - 1].0 == handle {
                return self.entries[i - 1].1.as_str();
            }
            i = i - 1;
        }
        proof {
            reveal_strlit("");
            assert(self.entries@.take(0) =~= Seq::<(NVHandle, String)>::empty());
        }
        ""
    }

    /// The value of the field named `value_name`; empty where that name was
    /// never interned, or the field is absent.
    pub fn get_value_by_name(&self, registry: &ValueRegistry, value_name: &str) -> (r: &str)
        requires
            registry.wf(),
        ensures
            !registry@.contains(value_name@) ==> r@ == Seq::<char>::empty(),
            forall|k: int|
                0 <= k < registry@.len() && registry@[k] == value_name@ ==> r@ == self.value(
                    (k + 1) as NVHandle,
                ),
    {
        match registry.lookup(value_name) {
            Some(h) => self.get_value(h),
            None => {
                proof {
                    reveal_strlit("");
                }
                ""
            },
        }
    }
}

} // verus!
