use vstd::prelude::*;

verus! {

/// The map a frame's entries stand for: a later entry for a name overrides an earlier one.
pub open spec fn frame_of<V>(s: Seq<(String, V)>) -> Map<Seq<char>, V>
    decreases s.len(),
{
    if s.len() == 0 {
        Map::empty()
    } else {
        frame_of(s.drop_last()).insert(s.last().0@, s.last().1)
    }
}

/// The value bound to `k` in the first frame of `fs` that binds it.
pub open spec fn lookup<V>(fs: Seq<Map<Seq<char>, V>>, k: Seq<char>) -> Option<V>
    decreases fs.len(),
{
    if fs.len() == 0 {
        None
    } else if fs[0].contains_key(k) {
        Some(fs[0][k])
    } else {
        lookup(fs.skip(1), k)
    }
}

/// The frames after rebinding `k` to `v` in the first frame that binds it;
/// `None` when no frame does.
pub open spec fn assign_frames<V>(fs: Seq<Map<Seq<char>, V>>, k: Seq<char>, v: V) -> Option<Seq<Map<Seq<char>, V>>>
    decreases fs.len(),
{
    if fs.len() == 0 {
        None
    } else if fs[0].contains_key(k) {
        Some(fs.update(0, fs[0].insert(k, v)))
    } else {
        match assign_frames(fs.skip(1), k, v) {
            Some(rest) => Some(seq![fs[0]] + rest),
            None => None,
        }
    }
}

/// A name can be rebound exactly when some frame binds it.
pub proof fn lemma_assign_bound<V>(fs: Seq<Map<Seq<char>, V>>, k: Seq<char>, v: V)
    ensures
        (assign_frames(fs, k, v) is Some) <==> (lookup(fs, k) is Some),
    decreases fs.len(),
{
    if fs.len() > 0 && !fs[0].contains_key(k) {
        lemma_assign_bound(fs.skip(1), k, v);
    }
}

/// The message for assigning to a name that no frame binds.
pub open spec fn undefined_message(k: Seq<char>) -> Seq<char> {
    "Undefined variable '"@ + k + "'"@
}

proof fn lemma_frame_last<V>(s: Seq<(String, V)>, i: int, k: Seq<char>)
    requires
        0 <= i < s.len(),
        s[i].0@ == k,
        forall|j: int| i < j < s.len() ==> s[j].0@ != k,
    ensures
        frame_of(s).contains_key(k),
        frame_of(s)[k] == s[i].1,
    decreases s.len(),
{
    if i < s.len() - 1 {
        lemma_frame_last(s.drop_last(), i, k);
    }
}

proof fn lemma_frame_absent<V>(s: Seq<(String, V)>, k: Seq<char>)
    requires
        forall|j: int| 0 <= j < s.len() ==> s[j].0@ != k,
    ensures
        !frame_of(s).contains_key(k),
    decreases s.len(),
{
    if s.len() > 0 {
        lemma_frame_absent(s.drop_last(), k);
    }
}

proof fn lemma_frame_update<V>(s: Seq<(String, V)>, i: int, e: (String, V))
    requires
        0 <= i < s.len(),
        s[i].0@ == e.0@,
        forall|j: int| i < j < s.len() ==> s[j].0@ != e.0@,
    ensures
        frame_of(s.update(i, e)) == frame_of(s).insert(e.0@, e.1),
    decreases s.len(),
{
    let u = s.update(i, e);
    if i == s.len() - 1 {
        assert(u.drop_last() =~= s.drop_last());
        assert(frame_of(u) =~= frame_of(s).insert(e.0@, e.1));
    } else {
        assert(u.drop_last() =~= s.drop_last().update(i, e));
        lemma_frame_update(s.drop_last(), i, e);
        assert(frame_of(u) =~= frame_of(s).insert(e.0@, e.1));
    }
}

proof fn lemma_frame_push<V>(s: Seq<(String, V)>, e: (String, V))
    ensures
        frame_of(s.push(e)) == frame_of(s).insert(e.0@, e.1),
{
    assert(s.push(e).drop_last() =~= s);
}

/// Assigning through a chain changes no frame's names, and no binding but
/// that of the assigned name.
pub proof fn law_assign_touches_one_name<V>(fs: Seq<Map<Seq<char>, V>>, k: Seq<char>, v: V)
    requires
        assign_frames(fs, k, v) is Some,
    ensures
        ({
            let gs = assign_frames(fs, k, v)->0;
            &&& gs.len() == fs.len()
            &&& forall|i: int| 0 <= i < fs.len() ==> #[trigger] gs[i].dom() == fs[i].dom()
            &&& forall|i: int, n: Seq<char>|
                0 <= i < fs.len() && n != k && #[trigger] fs[i].contains_key(n) ==> gs[i][n] == fs[i][n]
        }),
    decreases fs.len(),
{
    let gs = assign_frames(fs, k, v)->0;
    if fs[0].contains_key(k) {
        assert(fs[0].insert(k, v).dom() =~= fs[0].dom());
    } else {
        law_assign_touches_one_name(fs.skip(1), k, v);
        let rest = assign_frames(fs.skip(1), k, v)->0;
        assert forall|i: int| 0 <= i < fs.len() implies #[trigger] gs[i].dom() == fs[i].dom() by {
            if i > 0 {
                assert(gs[i] == rest[i - 1]);
                assert(fs[i] == fs.skip(1)[i - 1]);
            }
        }
        assert forall|i: int, n: Seq<char>|
            0 <= i < fs.len() && n != k && #[trigger] fs[i].contains_key(n) implies gs[i][n] == fs[i][n] by {
            if i > 0 {
                assert(gs[i] == rest[i - 1]);
                assert(fs[i] == fs.skip(1)[i - 1]);
            }
        }
    }
}

/// Scope hygiene for a frame `inner` in front of the frames `outer`: a
/// definition leaves `outer` as it was, and an assignment reaches `outer`
/// only for a name that `inner` does not bind, exactly as assigning in
/// `outer` alone would.
pub proof fn law_scope_hygiene<V>(inner: Map<Seq<char>, V>, outer: Seq<Map<Seq<char>, V>>, k: Seq<char>, v: V)
    ensures
        (seq![inner] + outer).update(0, inner.insert(k, v)).skip(1) == outer,
        inner.contains_key(k) ==> assign_frames(seq![inner] + outer, k, v) == Some(
            seq![inner.insert(k, v)] + outer,
        ),
        !inner.contains_key(k) ==> assign_frames(seq![inner] + outer, k, v) == match assign_frames(outer, k, v) {
            Some(gs) => Some(seq![inner] + gs),
            None => None,
        },
{
    let fs = seq![inner] + outer;
    assert(fs.update(0, inner.insert(k, v)).skip(1) =~= outer);
    assert(fs.skip(1) =~= outer);
    assert(fs.update(0, inner.insert(k, v)) =~= seq![inner.insert(k, v)] + outer);
}

/// The names of a frame's entries, in order.
pub open spec fn names_of<V>(s: Seq<(String, V)>) -> Seq<Seq<char>> {
    s.map_values(|e: (String, V)| e.0@)
}

proof fn lemma_frame_names<V>(a: Seq<(String, V)>, b: Seq<(String, V)>)
    requires
        names_of(a) == names_of(b),
    ensures
        frame_of(a).dom() == frame_of(b).dom(),
    decreases a.len(),
{
    assert(a.len() == names_of(a).len());
    if a.len() > 0 {
        assert forall|k: int| 0 <= k < a.len() - 1 implies names_of(a.drop_last())[k] == names_of(
            b.drop_last(),
        )[k] by {
            assert(names_of(a)[k] == names_of(b)[k]);
        }
        assert(names_of(a.drop_last()) =~= names_of(b.drop_last()));
        assert(names_of(a)[a.len() - 1] == names_of(b)[a.len() - 1]);
        lemma_frame_names(a.drop_last(), b.drop_last());
    }
}

/// Two frames' entries with the same names, each value of `b` a clone of the
/// one in `a` at the same place, stand for maps whose values are clones too.
proof fn lemma_frame_cloned<V: Clone>(a: Seq<(String, V)>, b: Seq<(String, V)>)
    requires
        names_of(a) == names_of(b),
        forall|j: int| 0 <= j < a.len() ==> cloned(#[trigger] a[j].1, b[j].1),
    ensures
        forall|k: Seq<char>| #[trigger] frame_of(a).contains_key(k) ==> cloned(frame_of(a)[k], frame_of(b)[k]),
    decreases a.len(),
{
    assert(a.len() == names_of(a).len());
    lemma_frame_names(a, b);
    if a.len() > 0 {
        assert forall|k: int| 0 <= k < a.len() - 1 implies names_of(a.drop_last())[k] == names_of(
            b.drop_last(),
        )[k] by {
            assert(names_of(a)[k] == names_of(b)[k]);
        }
        assert(names_of(a.drop_last()) =~= names_of(b.drop_last()));
        assert(names_of(a)[a.len() - 1] == names_of(b)[a.len() - 1]);
        assert forall|j: int| 0 <= j < a.drop_last().len() implies cloned(
            #[trigger] a.drop_last()[j].1,
            b.drop_last()[j].1,
        ) by {
            assert(cloned(a[j].1, b[j].1));
        }
        lemma_frame_cloned(a.drop_last(), b.drop_last());
        let last = a.len() - 1;
        assert(cloned(a[last].1, b[last].1));
        assert(a[last].0@ == b[last].0@);
        assert forall|k: Seq<char>| #[trigger] frame_of(a).contains_key(k) implies cloned(
            frame_of(a)[k],
            frame_of(b)[k],
        ) by {
            if k != a[last].0@ {
                assert(frame_of(a.drop_last()).contains_key(k));
            }
        }
    }
}

/// A scope: a frame of bindings and the scope that encloses it.
#[derive(Debug)]
pub struct Environment<V> {
    pub enclosing: Option<Box<Environment<V>>>,
    pub values: Vec<(String, V)>,
}

/// The position of the last entry of `values` named `name`.
fn find_last<V>(values: &Vec<(String, V)>, name: &String) -> (r: Option<usize>)
    ensures
        match r {
            Some(i) => i < values@.len() && values@[i as int].0@ == name@ && forall|j: int|
                i < j < values@.len() ==> values@[j].0@ != name@,
            None => forall|j: int| 0 <= j < values@.len() ==> values@[j].0@ != name@,
        },
{
    let mut i = values.len();
    while i > 0
        invariant
            i <= values@.len(),
            forall|j: int| i <= j < values@.len() ==> values@[j].0@ != name@,
        decreases i,
    {
        i = i - 1;
        if values[i].0 == *name {
            return Some(i);
        }
    }
    None
}

impl<V> Environment<V> {
    /// The frames of the chain, innermost first.
    pub open spec fn frames(&self) -> Seq<Map<Seq<char>, V>>
        decreases self,
    {
        match &self.enclosing {
            Some(e) => seq![frame_of(self.values@)] + e.frames(),
            None => seq![frame_of(self.values@)],
        }
    }

    /// A chain of one empty frame.
    pub fn new() -> (r: Self)
        ensures
            r.frames() == seq![Map::<Seq<char>, V>::empty()],
    {
        let r = Environment { enclosing: None, values: Vec::new() };
        assert(frame_of(r.values@) == Map::<Seq<char>, V>::empty());
        r
    }

    /// An empty frame in front of `enclosing`.
    pub fn new_with_enclosing(enclosing: Option<Box<Environment<V>>>) -> (r: Self)
        ensures
            r.frames() == seq![Map::<Seq<char>, V>::empty()] + match enclosing {
                Some(e) => e.frames(),
                None => Seq::empty(),
            },
    {
        let r = Environment { enclosing, values: Vec::new() };
        assert(frame_of(r.values@) == Map::<Seq<char>, V>::empty());
        assert(r.frames() =~= seq![Map::<Seq<char>, V>::empty()] + match enclosing {
            Some(e) => e.frames(),
            None => Seq::empty(),
        });
        r
    }

    /// Opens a new, empty innermost frame in front of the chain.
    pub fn push_scope(&mut self)
        ensures
            final(self).frames() == seq![Map::<Seq<char>, V>::empty()] + old(self).frames(),
    {
        let mut outer = Environment::new();
        core::mem::swap(self, &mut outer);
        let mut inner = Environment::new_with_enclosing(Some(Box::new(outer)));
        core::mem::swap(self, &mut inner);
    }

    /// Closes the innermost frame, leaving the chain it enclosed; a chain of
    /// one frame is left as one empty frame.
    pub fn pop_scope(&mut self)
        ensures
            old(self).frames().len() > 1 ==> final(self).frames() == old(self).frames().skip(1),
            old(self).frames().len() == 1 ==> final(self).frames() == seq![Map::<Seq<char>, V>::empty()],
    {
        let mut outer = match self.enclosing.take() {
            Some(e) => *e,
            None => Environment::new(),
        };
        assert(old(self).frames().skip(1) =~= match old(self).enclosing {
            Some(e) => e.frames(),
            None => Seq::empty(),
        });
        core::mem::swap(self, &mut outer);
    }

    /// Binds `name` to `value` in the innermost frame.
    pub fn define(&mut self, name: String, value: V)
        ensures
            final(self).frames() == old(self).frames().update(0, old(self).frames()[0].insert(name@, value)),
    {
        let ghost k = name@;
        match find_last(&self.values, &name) {
            Some(i) => {
                proof {
                    lemma_frame_update(self.values@, i as int, (name, value));
                }
                self.values.set(i, (name, value));
            },
            None => {
                proof {
                    lemma_frame_push(self.values@, (name, value));
                }
                self.values.push((name, value));
            },
        }
        assert(self.frames() =~= old(self).frames().update(0, old(self).frames()[0].insert(k, value)));
    }

    /// The value of `name` in the nearest frame that binds it.
    pub fn get(&self, name: &str) -> (r: Option<&V>)
        ensures
            match r {
                Some(v) => lookup(self.frames(), name@) == Some(*v),
                None => lookup(self.frames(), name@) is None,
            },
        decreases self,
    {
        let key = name.to_string();
        assert(self.frames()[0] == frame_of(self.values@));
        match find_last(&self.values, &key) {
            Some(i) => {
                proof {
                    lemma_frame_last(self.values@, i as int, name@);
                }
                Some(&self.values[i].1)
            },
            None => {
                proof {
                    lemma_frame_absent(self.values@, name@);
                }
                match &self.enclosing {
                    Some(e) => {
                        assert(self.frames().skip(1) =~= e.frames());
                        e.get(name)
                    },
                    None => {
                        assert(self.frames().skip(1) =~= Seq::<Map<Seq<char>, V>>::empty());
                        assert(lookup(self.frames().skip(1), name@) is None);
                        None
                    },
                }
            },
        }
    }

    /// Binds `name` to `value` as the language's assignment does: in the
    /// nearest frame that binds it, or else in the innermost frame.
    pub fn assign_or_define(&mut self, name: String, value: V)
        ensures
            final(self).frames() == match assign_frames(old(self).frames(), name@, value) {
                Some(fs) => fs,
                None => old(self).frames().update(0, old(self).frames()[0].insert(name@, value)),
            },
    {
        proof {
            lemma_assign_bound(self.frames(), name@, value);
        }
        if self.get(name.as_str()).is_some() {
            let _ = self.assign(name.as_str(), value);
        } else {
            self.define(name, value);
        }
    }

    /// Rebinds `name` to `value` in the nearest frame that binds it; fails
    /// when no frame does, leaving the chain unchanged.
    pub fn assign(&mut self, name: &str, value: V) -> (r: Result<(), String>)
        ensures
            match assign_frames(old(self).frames(), name@, value) {
                Some(fs) => r is Ok && final(self).frames() == fs,
                None => r is Err && r->Err_0@ == undefined_message(name@) && final(self).frames()
                    == old(self).frames(),
            },
        decreases old(self).frames().len(),
    {
        let key = name.to_string();
        assert(self.frames()[0] == frame_of(self.values@));
        match find_last(&self.values, &key) {
            Some(i) => {
                proof {
                    lemma_frame_last(self.values@, i as int, name@);
                    lemma_frame_update(self.values@, i as int, (key, value));
                }
                self.values.set(i, (key, value));
                assert(self.frames() =~= old(self).frames().update(
                    0,
                    old(self).frames()[0].insert(name@, value),
                ));
                Ok(())
            },
            None => {
                proof {
                    lemma_frame_absent(self.values@, name@);
                }
                match self.enclosing.take() {
                    Some(mut e) => {
                        assert(old(self).frames().skip(1) =~= e.frames());
                        let ghost before = e.frames();
                        assert(assign_frames(old(self).frames(), name@, value) == match assign_frames(before, name@, value) {
                            Some(rest) => Some(seq![old(self).frames()[0]] + rest),
                            None => None,
                        });
                        let r = e.assign(name, value);
                        self.enclosing = Some(e);
                        assert(self.frames() =~= seq![old(self).frames()[0]] + e.frames());
                        assert(old(self).frames() =~= seq![old(self).frames()[0]] + old(self).frames().skip(1));
                        r
                    },
                    None => {
                        assert(old(self).frames().skip(1) =~= Seq::<Map<Seq<char>, V>>::empty());
                        assert(assign_frames(old(self).frames().skip(1), name@, value) is None);
                        let mut m = "Undefined variable '".to_string();
                        m.append(name);
                        m.append("'");
                        Err(m)
                    },
                }
            },
        }
    }
}

impl<V: Clone> Environment<V> {
    /// An independent copy of the chain: the same frames binding the same
    /// names, each value a clone of the one it copies.
    pub fn snapshot(&self) -> (r: Self)
        ensures
            r.frames().len() == self.frames().len(),
            forall|i: int| 0 <= i < self.frames().len() ==> #[trigger] r.frames()[i].dom() == self.frames()[i].dom(),
            forall|i: int, k: Seq<char>|
                0 <= i < self.frames().len() && #[trigger] self.frames()[i].contains_key(k) ==> cloned(
                    self.frames()[i][k],
                    r.frames()[i][k],
                ),
        decreases self,
    {
        let mut values: Vec<(String, V)> = Vec::new();
        let mut i: usize = 0;
        while i < self.values.len()
            invariant
                i <= self.values@.len(),
                values@.len() == i,
                names_of(values@) == names_of(self.values@.take(i as int)),
                forall|j: int| 0 <= j < i ==> cloned(#[trigger] self.values@[j].1, values@[j].1),
            decreases self.values@.len() - i,
        {
            let name = self.values[i].0.clone();
            let value = self.values[i].1.clone();
            let ghost before = values@;
            let ghost nm = name@;
            assert(nm == self.values@[i as int].0@);
            values.push((name, value));
            assert(values@[i as int].0@ == nm);
            assert forall|k: int| 0 <= k < i + 1 implies names_of(values@)[k] == names_of(
                self.values@.take(i + 1),
            )[k] by {
                if k < i {
                    assert(names_of(before)[k] == names_of(self.values@.take(i as int))[k]);
                } else {
                    assert(names_of(values@)[k] == nm);
                }
            }
            assert(names_of(values@) =~= names_of(self.values@.take(i + 1)));
            i = i + 1;
        }
        assert(self.values@.take(i as int) =~= self.values@);
        proof {
            lemma_frame_names(values@, self.values@);
            lemma_frame_cloned(self.values@, values@);
        }
        let enclosing = match &self.enclosing {
            Some(e) => Some(Box::new(e.snapshot())),
            None => None,
        };
        let r = Environment { enclosing, values };
        assert forall|j: int| 0 <= j < self.frames().len() implies #[trigger] r.frames()[j].dom()
            == self.frames()[j].dom() by {
            if j > 0 {
                match (&r.enclosing, &self.enclosing) {
                    (Some(a), Some(b)) => {
                        assert(r.frames()[j] == a.frames()[j - 1]);
                        assert(self.frames()[j] == b.frames()[j - 1]);
                    },
                    _ => {},
                }
            }
        }
        assert forall|j: int, k: Seq<char>|
            0 <= j < self.frames().len() && #[trigger] self.frames()[j].contains_key(k) implies cloned(
            self.frames()[j][k],
            r.frames()[j][k],
        ) by {
            if j > 0 {
                match (&r.enclosing, &self.enclosing) {
                    (Some(a), Some(b)) => {
                        assert(r.frames()[j] == a.frames()[j - 1]);
                        assert(self.frames()[j] == b.frames()[j - 1]);
                    },
                    _ => {},
                }
            }
        }
        r
    }
}

} // verus!
