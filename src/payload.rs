use vstd::prelude::*;

verus! {

/// The representation kind of plain text.
pub const PLAIN_TEXT_KIND: &'static str = "public.utf8-plain-text";

/// The representation kind of a serialised tiddler.
pub const TIDDLER_KIND: &'static str = "text/vnd.tiddler";

/// One typed representation of a drag payload.
#[derive(Clone, Debug, PartialEq, Eq)]
pub struct Representation {
    pub kind: String,
    pub text: String,
}

impl Representation {
    /// The kind and the text.
    pub open spec fn pair(&self) -> (Seq<char>, Seq<char>) {
        (self.kind@, self.text@)
    }
}

/// The kinds and texts of a list of representations.
pub open spec fn pairs(v: Seq<Representation>) -> Seq<(Seq<char>, Seq<char>)> {
    v.map_values(|r: Representation| r.pair())
}

/// The map from kind to text that a list of writes leaves, a later write of a kind
/// replacing an earlier one.
pub open spec fn written(m: Map<Seq<char>, Seq<char>>, ws: Seq<(Seq<char>, Seq<char>)>) -> Map<
    Seq<char>,
    Seq<char>,
>
    decreases ws.len(),
{
    if ws.len() == 0 {
        m
    } else {
        written(m, ws.drop_last()).insert(ws.last().0, ws.last().1)
    }
}

/// The writes that correct an internal drag's payload: the plain text, then the tiddler,
/// each only where the application supplied it.
pub open spec fn internal_writes(plain: Option<Seq<char>>, tiddler: Option<Seq<char>>) -> Seq<
    (Seq<char>, Seq<char>),
> {
    let p: Seq<(Seq<char>, Seq<char>)> = match plain {
        Some(t) => seq![(PLAIN_TEXT_KIND@, t)],
        None => seq![],
    };
    let q: Seq<(Seq<char>, Seq<char>)> = match tiddler {
        Some(t) => seq![(TIDDLER_KIND@, t)],
        None => seq![],
    };
    p + q
}

/// The text of an optional string.
pub open spec fn opt_view(o: Option<String>) -> Option<Seq<char>> {
    match o {
        Some(s) => Some(s@),
        None => None,
    }
}

/// The representations to overwrite on the payload of an internal drag, from the texts
/// that the application supplied: a present text replaces its representation, an absent
/// one leaves it alone.
pub fn internal_rewrites(plain: Option<String>, tiddler: Option<String>) -> (r: Vec<
    Representation,
>)
    ensures
        pairs(r@) == internal_writes(opt_view(plain), opt_view(tiddler)),
{
    let mut out: Vec<Representation> = Vec::new();
    if let Some(text) = plain {
        out.push(Representation { kind: String::from_str(PLAIN_TEXT_KIND), text });
    }
    if let Some(text) = tiddler {
        out.push(Representation { kind: String::from_str(TIDDLER_KIND), text });
    }
    assert(pairs(out@) =~= internal_writes(opt_view(plain), opt_view(tiddler)));
    out
}

/// A drag payload: text representations keyed by kind.
pub struct Payload {
    reps: Vec<Representation>,
}

impl View for Payload {
    type V = Map<Seq<char>, Seq<char>>;

    /// The text of each kind that the payload offers.
    closed spec fn view(&self) -> Map<Seq<char>, Seq<char>> {
        written(Map::empty(), pairs(self.reps@))
    }
}

proof fn lemma_written_at(m: Map<Seq<char>, Seq<char>>, s: Seq<(Seq<char>, Seq<char>)>, i: int)
    requires
        0 <= i < s.len(),
        forall|j: int| i < j < s.len() ==> (#[trigger] s[j]).0 != s[i].0,
    ensures
        written(m, s).contains_key(s[i].0),
        written(m, s)[s[i].0] == s[i].1,
    decreases s.len(),
{
    if i < s.len() - 1 {
        let t = s.drop_last();
        assert forall|j: int| i < j < t.len() implies (#[trigger] t[j]).0 != t[i].0 by {
            assert(t[j] == s[j]);
        }
        lemma_written_at(m, t, i);
        assert(s[s.len() - 1].0 != s[i].0);
    }
}

proof fn lemma_written_absent(m: Map<Seq<char>, Seq<char>>, s: Seq<(Seq<char>, Seq<char>)>, k: Seq<char>)
    requires
        forall|j: int| 0 <= j < s.len() ==> (#[trigger] s[j]).0 != k,
    ensures
        written(m, s).contains_key(k) == m.contains_key(k),
        written(m, s).contains_key(k) ==> written(m, s)[k] == m[k],
    decreases s.len(),
{
    if s.len() > 0 {
        let t = s.drop_last();
        assert forall|j: int| 0 <= j < t.len() implies (#[trigger] t[j]).0 != k by {
            assert(t[j] == s[j]);
        }
        lemma_written_absent(m, t, k);
        assert(s[s.len() - 1].0 != k);
    }
}

proof fn lemma_written_update(
    m: Map<Seq<char>, Seq<char>>,
    s: Seq<(Seq<char>, Seq<char>)>,
    i: int,
    v: Seq<char>,
)
    requires
        0 <= i < s.len(),
        forall|j: int| i < j < s.len() ==> (#[trigger] s[j]).0 != s[i].0,
    ensures
        written(m, s.update(i, (s[i].0, v))) == written(m, s).insert(s[i].0, v),
    decreases s.len(),
{
    let k = s[i].0;
    let u = s.update(i, (k, v));
    if i == s.len() - 1 {
        assert(u.drop_last() == s.drop_last());
        assert(written(m, u) =~= written(m, s).insert(k, v));
    } else {
        let t = s.drop_last();
        assert forall|j: int| i < j < t.len() implies (#[trigger] t[j]).0 != t[i].0 by {
            assert(t[j] == s[j]);
        }
        lemma_written_update(m, t, i, v);
        assert(u.drop_last() == t.update(i, (k, v)));
        assert(s[s.len() - 1].0 != k);
        assert(written(m, u) =~= written(m, s).insert(k, v));
    }
}

/// `m` with the text of `kind` replaced by `o` where `o` is present, else `m` itself.
pub open spec fn replaced(m: Map<Seq<char>, Seq<char>>, kind: Seq<char>, o: Option<Seq<char>>) -> Map<
    Seq<char>,
    Seq<char>,
> {
    match o {
        Some(t) => m.insert(kind, t),
        None => m,
    }
}

/// Rewriting an internal drag's payload replaces the plain text and the tiddler where the
/// application supplied them, whole, and leaves every other kind, and each kind whose
/// text was absent, exactly as it was.
pub proof fn internal_rewrite_touches_only_supplied(
    m: Map<Seq<char>, Seq<char>>,
    plain: Option<Seq<char>>,
    tiddler: Option<Seq<char>>,
)
    ensures
        ({
            let after = written(m, internal_writes(plain, tiddler));
            &&& after == replaced(replaced(m, PLAIN_TEXT_KIND@, plain), TIDDLER_KIND@, tiddler)
            &&& forall|k: Seq<char>|
                k != PLAIN_TEXT_KIND@ && k != TIDDLER_KIND@ ==> (#[trigger] after.contains_key(k)
                    == m.contains_key(k) && (m.contains_key(k) ==> after[k] == m[k]))
            &&& plain is None ==> (after.contains_key(PLAIN_TEXT_KIND@) == m.contains_key(
                PLAIN_TEXT_KIND@,
            ) && (m.contains_key(PLAIN_TEXT_KIND@) ==> after[PLAIN_TEXT_KIND@]
                == m[PLAIN_TEXT_KIND@]))
            &&& plain matches Some(t) ==> (after.contains_key(PLAIN_TEXT_KIND@)
                && after[PLAIN_TEXT_KIND@] == t)
            &&& tiddler is None ==> (after.contains_key(TIDDLER_KIND@) == m.contains_key(
                TIDDLER_KIND@,
            ) && (m.contains_key(TIDDLER_KIND@) ==> after[TIDDLER_KIND@] == m[TIDDLER_KIND@]))
            &&& tiddler matches Some(t) ==> (after.contains_key(TIDDLER_KIND@) && after[TIDDLER_KIND@]
                == t)
        }),
{
    reveal_strlit("public.utf8-plain-text");
    reveal_strlit("text/vnd.tiddler");
    assert(PLAIN_TEXT_KIND@.len() != TIDDLER_KIND@.len());
    let ws = internal_writes(plain, tiddler);
    let after = replaced(replaced(m, PLAIN_TEXT_KIND@, plain), TIDDLER_KIND@, tiddler);
    let e: Seq<(Seq<char>, Seq<char>)> = seq![];
    assert(written(m, e) == m);
    match plain {
        Some(p) => match tiddler {
            Some(t) => {
                let one = seq![(PLAIN_TEXT_KIND@, p)];
                assert(one.drop_last() =~= e);
                assert(written(m, one) == m.insert(PLAIN_TEXT_KIND@, p));
                assert(ws.drop_last() =~= one);
                assert(written(m, ws) == m.insert(PLAIN_TEXT_KIND@, p).insert(TIDDLER_KIND@, t));
            },
            None => {
                assert(ws.drop_last() =~= e);
                assert(written(m, ws) == m.insert(PLAIN_TEXT_KIND@, p));
            },
        },
        None => match tiddler {
            Some(t) => {
                assert(ws.drop_last() =~= e);
                assert(written(m, ws) == m.insert(TIDDLER_KIND@, t));
            },
            None => {
                assert(ws =~= e);
            },
        },
    }
    assert(written(m, ws) =~= after);
}

impl Payload {
    /// A payload without representations.
    pub fn new() -> (r: Payload)
        ensures
            r@ == Map::<Seq<char>, Seq<char>>::empty(),
    {
        let r = Payload { reps: Vec::new() };
        assert(pairs(r.reps@) =~= seq![]);
        r
    }

    /// Where the latest representation of `kind` stands, if any.
    fn find(&self, kind: &String) -> (r: Option<usize>)
        ensures
            match r {
                Some(i) => i < self.reps@.len() && pairs(self.reps@)[i as int].0 == kind@
                    && forall|j: int|
                    i < j < self.reps@.len() ==> (#[trigger] pairs(self.reps@)[j]).0 != kind@,
                None => forall|j: int|
                    0 <= j < self.reps@.len() ==> (#[trigger] pairs(self.reps@)[j]).0 != kind@,
            },
    {
        let mut i: usize = self.reps.len();
        while i > 0
            invariant
                i <= self.reps@.len(),
                forall|j: int|
                    i <= j < self.reps@.len() ==> (#[trigger] pairs(self.reps@)[j]).0 != kind@,
            decreases i,
        {
            i = i - 1;
            if self.reps[i].kind.eq(kind) {
                return Some(i);
            }
        }
        None
    }

    /// The text of the payload's representation of `kind`, if it offers one.
    pub fn get(&self, kind: &String) -> (r: Option<String>)
        ensures
            match r {
                Some(t) => self@.contains_key(kind@) && self@[kind@] == t@,
                None => !self@.contains_key(kind@),
            },
    {
        match self.find(kind) {
            Some(i) => {
                proof {
                    lemma_written_at(Map::empty(), pairs(self.reps@), i as int);
                }
                Some(self.reps[i].text.clone())
            },
            None => {
                proof {
                    lemma_written_absent(Map::empty(), pairs(self.reps@), kind@);
                }
                None
            },
        }
    }

    /// Sets the representation of `kind` to `text`, replacing any earlier text of that
    /// kind and leaving every other kind as it was.
    pub fn set(&mut self, kind: String, text: String)
        ensures
            final(self)@ == old(self)@.insert(kind@, text@),
    {
        match self.find(&kind) {
            Some(i) => {
                proof {
                    lemma_written_update(Map::empty(), pairs(self.reps@), i as int, text@);
                }
                let ghost before = self.reps@;
                self.reps.set(i, Representation { kind, text });
                assert(pairs(self.reps@) =~= pairs(before).update(
                    i as int,
                    (pairs(before)[i as int].0, text@),
                ));
            },
            None => {
                let ghost before = self.reps@;
                self.reps.push(Representation { kind, text });
                assert(pairs(self.reps@).drop_last() =~= pairs(before));
            },
        }
    }

    /// Sets each representation of `writes` in turn.
    pub fn apply(&mut self, writes: &Vec<Representation>)
        ensures
            final(self)@ == written(old(self)@, pairs(writes@)),
    {
        let ghost start = self@;
        let mut i: usize = 0;
        while i < writes.len()
            invariant
                i <= writes@.len(),
                self@ == written(start, pairs(writes@).subrange(0, i as int)),
            decreases writes@.len() - i,
        {
            assert(pairs(writes@).subrange(0, i + 1).drop_last() == pairs(writes@).subrange(
                0,
                i as int,
            ));
            self.set(writes[i].kind.clone(), writes[i].text.clone());
            i = i + 1;
        }
        assert(pairs(writes@).subrange(0, writes@.len() as int) == pairs(writes@));
    }
}

} // verus!
