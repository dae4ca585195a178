//! Rules for reading configuration variables, and comma-separated lists.
//!
//! Reading the environment is left to the caller: each rule takes what the
//! environment holds for a key, already parsed into the wanted type, `None`
//! where the variable is unset (or not valid Unicode).

use vstd::prelude::*;
use vstd::string::StrSliceExecFns;

verus! {

/// Why a configuration variable could not be used.
#[derive(Clone, Copy, Debug, PartialEq, Eq, Structural)]
pub enum ErrorKind {
    Missing,
    Invalid,
}

/// A configuration variable that could not be used, with the reason.
#[derive(Clone, Debug)]
pub struct ConfigError {
    pub key: String,
    pub kind: ErrorKind,
}

/// `e` reports `key` with reason `kind`.
pub open spec fn reports(e: ConfigError, key: Seq<char>, kind: ErrorKind) -> bool {
    e.key@ == key && e.kind == kind
}

impl ConfigError {
    /// The error for `key` with reason `kind`.
    pub fn new(key: &str, kind: ErrorKind) -> (e: ConfigError)
        ensures
            reports(e, key@, kind),
            e.key@ == key@,
            e.kind == kind,
    {
        ConfigError { key: key.to_owned(), kind }
    }

    /// The human-readable message: `"<key> missing"` or `"<key> is invalid"`.
    pub fn message(&self) -> (m: String)
        ensures
            m@ == self.key@ + match self.kind {
                ErrorKind::Missing => " missing"@,
                ErrorKind::Invalid => " is invalid"@,
            },
    {
        let mut m = self.key.clone();
        match self.kind {
            ErrorKind::Missing => m.append(" missing"),
            ErrorKind::Invalid => m.append(" is invalid"),
        }
        m
    }
}

/// A required variable: missing where unset, invalid where it does not parse.
pub fn var<T, E>(key: &str, value: Option<Result<T, E>>) -> (r: Result<T, ConfigError>)
    ensures
        match value {
            None => r matches Err(e) && reports(e, key@, ErrorKind::Missing),
            Some(Err(_)) => r matches Err(e) && reports(e, key@, ErrorKind::Invalid),
            Some(Ok(v)) => r matches Ok(x) && x == v,
        },
{
    match value {
        None => Err(ConfigError::new(key, ErrorKind::Missing)),
        Some(Err(_)) => Err(ConfigError::new(key, ErrorKind::Invalid)),
        Some(Ok(v)) => Ok(v),
    }
}

/// An optional variable: `f()` where unset, invalid where it does not parse.
pub fn var_or_else<T, E, F: FnOnce() -> T>(key: &str, value: Option<Result<T, E>>, f: F) -> (r: Result<T, ConfigError>)
    requires
        value is None ==> f.requires(()),
    ensures
        match value {
            None => r matches Ok(x) && f.ensures((), x),
            Some(Err(_)) => r matches Err(e) && reports(e, key@, ErrorKind::Invalid),
            Some(Ok(v)) => r matches Ok(x) && x == v,
        },
{
    match value {
        Some(Ok(v)) => Ok(v),
        Some(Err(_)) => Err(ConfigError::new(key, ErrorKind::Invalid)),
        None => Ok(f()),
    }
}

/// An optional variable: `default` where unset, invalid where it does not parse.
pub fn var_or<T, E>(key: &str, value: Option<Result<T, E>>, default: T) -> (r: Result<T, ConfigError>)
    ensures
        match value {
            None => r matches Ok(x) && x == default,
            Some(Err(_)) => r matches Err(e) && reports(e, key@, ErrorKind::Invalid),
            Some(Ok(v)) => r matches Ok(x) && x == v,
        },
{
    let ghost d = default;
    var_or_else(key, value, move || -> (x: T)
        ensures
            x == d,
        { default })
}

/// The pieces of `s` between the occurrences of `sep`, in order; as many
/// pieces as separators plus one.
pub open spec fn split_on(s: Seq<char>, sep: char) -> Seq<Seq<char>>
    decreases s.len(),
{
    if s.len() == 0 {
        seq![Seq::<char>::empty()]
    } else {
        let init = split_on(s.drop_last(), sep);
        if s.last() == sep {
            init.push(Seq::<char>::empty())
        } else {
            init.update(init.len() - 1, init.last().push(s.last()))
        }
    }
}

/// The pieces joined, with `sep` between each two.
pub open spec fn join_with(parts: Seq<Seq<char>>, sep: char) -> Seq<char>
    decreases parts.len(),
{
    if parts.len() == 0 {
        Seq::<char>::empty()
    } else if parts.len() == 1 {
        parts[0]
    } else {
        join_with(parts.drop_last(), sep).push(sep) + parts.last()
    }
}

/// Splitting gives at least one piece, and no piece holds the separator.
pub proof fn lemma_split_pieces(s: Seq<char>, sep: char)
    ensures
        split_on(s, sep).len() >= 1,
        forall|i: int, j: int|
            0 <= i < split_on(s, sep).len() && 0 <= j < split_on(s, sep)[i].len()
                ==> #[trigger] split_on(s, sep)[i][j] != sep,
    decreases s.len(),
{
    if s.len() > 0 {
        lemma_split_pieces(s.drop_last(), sep);
        let init = split_on(s.drop_last(), sep);
        if s.last() != sep {
            let p = split_on(s, sep);
            assert forall|i: int, j: int| 0 <= i < p.len() && 0 <= j < p[i].len() implies #[trigger] p[i][j] != sep by {
                if i == init.len() - 1 {
                    if j < init.last().len() {
                        assert(p[i][j] == init[i][j]);
                    }
                } else {
                    assert(p[i][j] == init[i][j]);
                }
            }
        } else {
            let p = split_on(s, sep);
            assert forall|i: int, j: int| 0 <= i < p.len() && 0 <= j < p[i].len() implies #[trigger] p[i][j] != sep by {
                assert(p[i][j] == init[i][j]);
            }
        }
    }
}

proof fn lemma_join_extend_last(parts: Seq<Seq<char>>, sep: char, c: char)
    requires
        parts.len() >= 1,
    ensures
        join_with(parts.update(parts.len() - 1, parts.last().push(c)), sep) == join_with(parts, sep).push(c),
{
    let q = parts.update(parts.len() - 1, parts.last().push(c));
    if parts.len() >= 2 {
        assert(q.drop_last() =~= parts.drop_last());
        assert(join_with(q, sep) =~= join_with(parts, sep).push(c));
    }
}

/// Joining the pieces of a split with the same separator gives the text back.
pub proof fn lemma_join_split(s: Seq<char>, sep: char)
    ensures
        join_with(split_on(s, sep), sep) == s,
    decreases s.len(),
{
    if s.len() > 0 {
        let p = s.drop_last();
        lemma_join_split(p, sep);
        lemma_split_pieces(p, sep);
        let init = split_on(p, sep);
        if s.last() == sep {
            let q = init.push(Seq::<char>::empty());
            assert(q.drop_last() =~= init);
            assert(join_with(q, sep) =~= s);
        } else {
            lemma_join_extend_last(init, sep, s.last());
            assert(p.push(s.last()) =~= s);
        }
    }
}

/// The pieces of `s` between its commas, as `str::split(',')` yields them.
pub fn split_commas(s: &str) -> (parts: Vec<String>)
    ensures
        parts@.map_values(|p: String| p@) == split_on(s@, ','),
        parts@.len() >= 1,
        join_with(parts@.map_values(|p: String| p@), ',') == s@,
        forall|i: int, j: int|
            0 <= i < parts@.len() && 0 <= j < parts@[i]@.len() ==> #[trigger] parts@[i]@[j] != ',',
{
    proof {
        lemma_join_split(s@, ',');
        lemma_split_pieces(s@, ',');
    }
    let n = s.unicode_len();
    let mut parts: Vec<String> = Vec::new();
    let mut start: usize = 0;
    let mut i: usize = 0;
    assert(s@.take(0) =~= Seq::<char>::empty());
    while i < n
        invariant
            n == s@.len(),
            start <= i <= n,
            parts@.map_values(|p: String| p@).push(s@.subrange(start as int, i as int))
                == split_on(s@.take(i as int), ','),
        decreases n - i,
    {
        let c = s.get_char(i);
        let ghost before = parts@.map_values(|p: String| p@);
        assert(s@.take(i + 1).drop_last() =~= s@.take(i as int));
        assert(s@.take(i + 1).last() == c);
        if c == ',' {
            let piece = s.substring_char(start, i).to_owned();
            let ghost cur = piece@;
            parts.push(piece);
            start = i + 1;
            assert(parts@.map_values(|p: String| p@) =~= before.push(cur));
            assert(s@.subrange(start as int, start as int) =~= Seq::<char>::empty());
        } else {
            assert(s@.subrange(start as int, i + 1) =~= s@.subrange(start as int, i as int).push(c));
        }
        i = i + 1;
        assert(parts@.map_values(|p: String| p@).push(s@.subrange(start as int, i as int))
            =~= split_on(s@.take(i as int), ','));
    }
    let last = s.substring_char(start, n).to_owned();
    let ghost before = parts@.map_values(|p: String| p@);
    parts.push(last);
    assert(s@.take(n as int) =~= s@);
    assert(parts@.map_values(|p: String| p@) =~= before.push(s@.subrange(start as int, n as int)));
    proof {
        let pieces = parts@.map_values(|p: String| p@);
        assert forall|i: int, j: int| 0 <= i < parts@.len() && 0 <= j < parts@[i]@.len() implies #[trigger] parts@[i]@[j] != ',' by {
            assert(pieces[i] == parts@[i]@);
            assert(split_on(s@, ',')[i][j] != ',');
        }
    }
    parts
}

/// A list read from comma-separated text.
pub struct CommaVec<T>(Vec<T>);

impl<T> View for CommaVec<T> {
    type V = Seq<T>;

    closed spec fn view(&self) -> Seq<T> {
        self.0@
    }
}

/// All values where every piece parsed, else the error of the first piece that did not.
pub open spec fn collect_all<T, E>(parts: Seq<Result<T, E>>) -> Result<Seq<T>, E>
    decreases parts.len(),
{
    if parts.len() == 0 {
        Ok(Seq::<T>::empty())
    } else {
        match parts[0] {
            Err(e) => Err(e),
            Ok(v) => match collect_all(parts.drop_first()) {
                Ok(rest) => Ok(seq![v] + rest),
                Err(e) => Err(e),
            },
        }
    }
}

/// `i` is the first piece that did not parse.
pub open spec fn is_first_error<T, E>(parts: Seq<Result<T, E>>, i: int) -> bool {
    &&& 0 <= i < parts.len()
    &&& parts[i] is Err
    &&& forall|j: int| 0 <= j < i ==> (#[trigger] parts[j]) is Ok
}

/// Collecting succeeds exactly when every piece parsed, with one value per
/// piece in order; otherwise it fails with the error of the first piece that
/// did not parse.
pub proof fn lemma_collect_all<T, E>(parts: Seq<Result<T, E>>)
    ensures
        (collect_all(parts) is Ok) <==> (forall|i: int| 0 <= i < parts.len() ==> (#[trigger] parts[i]) is Ok),
        collect_all(parts) matches Ok(values) ==> {
            &&& values.len() == parts.len()
            &&& forall|i: int| 0 <= i < parts.len() ==> #[trigger] parts[i] == Ok::<T, E>(values[i])
        },
        collect_all(parts) matches Err(e) ==> exists|i: int|
            #[trigger] is_first_error(parts, i) && parts[i] == Err::<T, E>(e),
    decreases parts.len(),
{
    if parts.len() > 0 {
        let rest = parts.drop_first();
        lemma_collect_all(rest);
        match parts[0] {
            Err(e) => {
                assert(is_first_error(parts, 0));
            },
            Ok(v) => {
                match collect_all(rest) {
                    Ok(tail) => {
                        assert forall|i: int| 0 <= i < parts.len() implies #[trigger] parts[i] == Ok::<T, E>((seq![v] + tail)[i]) by {
                            if i > 0 {
                                assert(parts[i] == rest[i - 1]);
                            }
                        }
                    },
                    Err(e) => {
                        let k = choose|k: int| #[trigger] is_first_error(rest, k) && rest[k] == Err::<T, E>(e);
                        assert forall|j: int| 0 <= j < k + 1 implies (#[trigger] parts[j]) is Ok by {
                            if j > 0 {
                                assert(parts[j] == rest[j - 1]);
                            }
                        }
                        assert(is_first_error(parts, k + 1));
                        assert(!(parts[k + 1] is Ok));
                    },
                }
                if forall|i: int| 0 <= i < parts.len() ==> (#[trigger] parts[i]) is Ok {
                    assert forall|i: int| 0 <= i < rest.len() implies (#[trigger] rest[i]) is Ok by {
                        assert(rest[i] == parts[i + 1]);
                    }
                }
            },
        }
    }
}

impl<T> CommaVec<T> {
    /// The list of the parsed pieces, or the error of the first piece that did not parse.
    pub fn from_parsed<E>(parsed: Vec<Result<T, E>>) -> (r: Result<CommaVec<T>, E>)
        ensures
            match collect_all(parsed@) {
                Ok(values) => r matches Ok(list) && list@ == values,
                Err(e) => r matches Err(x) && x == e,
            },
            (r is Ok) <==> (forall|i: int| 0 <= i < parsed@.len() ==> (#[trigger] parsed@[i]) is Ok),
            r matches Ok(list) ==> {
                &&& list@.len() == parsed@.len()
                &&& forall|i: int| 0 <= i < parsed@.len() ==> #[trigger] parsed@[i] == Ok::<T, E>(list@[i])
            },
            r matches Err(e) ==> exists|i: int| #[trigger] is_first_error(parsed@, i) && parsed@[i] == Err::<T, E>(e),
    {
        proof {
            lemma_collect_all(parsed@);
        }
        let mut rest = parsed;
        let mut values: Vec<T> = Vec::new();
        while rest.len() > 0
            invariant
                collect_all(parsed@) == match collect_all(rest@) {
                    Ok(tail) => Ok(values@ + tail),
                    Err(e) => Err(e),
                },
            decreases rest@.len(),
        {
            let ghost before = rest@;
            let ghost done = values@;
            let first = rest.remove(0);
            assert(rest@ =~= before.drop_first());
            match first {
                Ok(v) => {
                    values.push(v);
                    proof {
                        match collect_all(rest@) {
                            Ok(tail) => {
                                assert(done + (seq![v] + tail) =~= values@ + tail);
                            },
                            Err(_) => {},
                        }
                    }
                },
                Err(e) => {
                    proof {
                        lemma_collect_all(parsed@);
                    }
                    return Err(e);
                },
            }
        }
        assert(values@ + Seq::<T>::empty() =~= values@);
        Ok(CommaVec(values))
    }

    /// The values, in order.
    pub fn into_inner(self) -> (v: Vec<T>)
        ensures
            v@ == self@,
    {
        self.0
    }
}

impl<T> core::ops::Deref for CommaVec<T> {
    type Target = Vec<T>;

    fn deref(&self) -> (v: &Vec<T>)
        ensures
            v@ == self@,
    {
        &self.0
    }
}

impl<T> core::ops::DerefMut for CommaVec<T> {
    fn deref_mut(&mut self) -> (v: &mut Vec<T>)
        ensures
            v@ == old(self)@,
            final(self)@ == final(v)@,
    {
        &mut self.0
    }
}

} // verus!
