use vstd::prelude::*;

verus! {

/// A currency code together with the numeric text that stands for it.
pub type RateSpec = (Seq<char>, Seq<char>);

/// The reserved code of the home currency: it is never substituted.
pub open spec fn home_code() -> Seq<char> {
    seq!['0', '0']
}

/// A code that substitution replaces: not empty and not the home code.
pub open spec fn substitutable(code: Seq<char>) -> bool {
    code.len() > 0 && code != home_code()
}

pub open spec fn starts_with(text: Seq<char>, prefix: Seq<char>) -> bool {
    prefix.len() <= text.len() && text.subrange(0, prefix.len() as int) == prefix
}

/// No two entries of the table share a code.
pub open spec fn codes_unique(table: Seq<RateSpec>) -> bool {
    forall|i: int, j: int|
        0 <= i < table.len() && 0 <= j < table.len() && i != j ==> #[trigger] table[i].0
            != #[trigger] table[j].0
}

/// Among the first `n` entries of the table, the one whose code is the longest
/// substitutable code that `text` starts with (the earlier one on a tie).
pub open spec fn longest_match(table: Seq<RateSpec>, text: Seq<char>, n: nat) -> Option<int>
    decreases n,
{
    if n == 0 {
        None
    } else {
        let best = longest_match(table, text, (n - 1) as nat);
        let code = table[n - 1].0;
        if substitutable(code) && starts_with(text, code) && (best is None
            || table[best->0].0.len() < code.len()) {
            Some(n - 1)
        } else {
            best
        }
    }
}

/// The rate text as it is written into an expression.
pub open spec fn parenthesized(rate: Seq<char>) -> Seq<char> {
    seq!['('] + rate + seq![')']
}

/// `text` read from left to right once: at each position the longest code of the
/// table that starts there is replaced by its parenthesized rate, and reading goes
/// on after the code, so that inserted text is never read again.
pub open spec fn substituted(table: Seq<RateSpec>, text: Seq<char>) -> Seq<char>
    decreases text.len(),
    via substituted_decreases
{
    if text.len() == 0 {
        Seq::empty()
    } else {
        match longest_match(table, text, table.len()) {
            Some(j) => parenthesized(table[j].1) + substituted(
                table,
                text.skip(table[j].0.len() as int),
            ),
            None => seq![text[0]] + substituted(table, text.skip(1)),
        }
    }
}

#[via_fn]
proof fn substituted_decreases(table: Seq<RateSpec>, text: Seq<char>) {
    if text.len() != 0 {
        lemma_longest_match(table, text, table.len());
    }
}

/// What `longest_match` picks is an entry among the first `n` whose code is a
/// substitutable prefix of `text`.
pub proof fn lemma_longest_match(table: Seq<RateSpec>, text: Seq<char>, n: nat)
    requires
        n <= table.len(),
    ensures
        match longest_match(table, text, n) {
            Some(j) => 0 <= j < n && substitutable(table[j].0) && starts_with(text, table[j].0),
            None => true,
        },
    decreases n,
{
    if n > 0 {
        lemma_longest_match(table, text, (n - 1) as nat);
    }
}

/// Dropping a home-code entry from the table changes neither whether a match is
/// found among the first `k` entries nor which code and rate it is.
proof fn lemma_match_without_home(table: Seq<RateSpec>, text: Seq<char>, i: int, k: nat)
    requires
        0 <= i < table.len(),
        table[i].0 == home_code(),
        k <= table.len(),
    ensures
        ({
            let m = longest_match(table, text, k);
            let m2 = longest_match(table.remove(i), text, if k > i { (k - 1) as nat } else { k });
            &&& (m is None <==> m2 is None)
            &&& m is Some ==> 0 <= m2->0 < table.len() - 1 && 0 <= m->0 < table.len()
                && table[m->0] == table.remove(i)[m2->0]
        }),
    decreases k,
{
    let removed = table.remove(i);
    if k > 0 {
        lemma_match_without_home(table, text, i, (k - 1) as nat);
        lemma_longest_match(table, text, (k - 1) as nat);
        lemma_longest_match(table, text, k);
        if k - 1 > i {
            assert(removed[k - 2] == table[k - 1]);
            lemma_longest_match(removed, text, (k - 2) as nat);
        } else if k - 1 < i {
            assert(removed[k - 1] == table[k - 1]);
            lemma_longest_match(removed, text, (k - 1) as nat);
        }
    }
}

/// The home code is never substituted: an entry for `"00"` in the table, wherever
/// it stands, leaves the result of substitution as it would be without it.
pub proof fn lemma_home_code_never_substituted(table: Seq<RateSpec>, i: int, text: Seq<char>)
    requires
        0 <= i < table.len(),
        table[i].0 == home_code(),
    ensures
        substituted(table, text) == substituted(table.remove(i), text),
    decreases text.len(),
{
    if text.len() > 0 {
        lemma_match_without_home(table, text, i, table.len());
        lemma_longest_match(table, text, table.len());
        match longest_match(table, text, table.len()) {
            Some(j) => {
                lemma_home_code_never_substituted(table, i, text.skip(table[j].0.len() as int));
            },
            None => {
                lemma_home_code_never_substituted(table, i, text.skip(1));
            },
        }
    }
}

/// Whether `code` occurs in `text` at character position `pos`.
fn occurs_at(text: &str, pos: usize, code: &str) -> (r: bool)
    requires
        pos <= text@.len(),
    ensures
        r == starts_with(text@.skip(pos as int), code@),
{
    let n: usize = text.unicode_len();
    let m: usize = code.unicode_len();
    if m > n - pos {
        return false;
    }
    let mut k: usize = 0;
    while k < m
        invariant
            n == text@.len(),
            m == code@.len(),
            pos + m <= n,
            k <= m,
            forall|t: int| 0 <= t < k ==> text@[pos + t] == code@[t],
        decreases m - k,
    {
        if text.get_char(pos + k) != code.get_char(k) {
            assert(text@.skip(pos as int).subrange(0, m as int)[k as int] != code@[k as int]);
            return false;
        }
        k += 1;
    }
    assert(text@.skip(pos as int).subrange(0, m as int) =~= code@);
    true
}

/// Whether `code` is substituted at all.
fn is_substitutable(code: &str) -> (r: bool)
    ensures
        r == substitutable(code@),
{
    let m: usize = code.unicode_len();
    if m == 0 {
        return false;
    }
    if m != 2 {
        return true;
    }
    let home = code.get_char(0) == '0' && code.get_char(1) == '0';
    if home {
        assert(code@ =~= home_code());
    } else {
        assert(code@ != home_code());
    }
    !home
}

/// A table of exchange rates: currency codes, each with the numeric text of its
/// rate, as a rate source delivers them.
pub struct Rates {
    entries: Vec<(String, String)>,
}

impl Rates {
    /// The entries, in the order in which they were first inserted.
    pub closed spec fn table(&self) -> Seq<RateSpec> {
        self.entries@.map_values(|e: (String, String)| (e.0@, e.1@))
    }

    pub closed spec fn wf(&self) -> bool {
        codes_unique(self.table())
    }

    /// An empty table: substitution leaves every text as it is.
    pub fn new() -> (r: Rates)
        ensures
            r.wf(),
            r.table() == Seq::<RateSpec>::empty(),
    {
        let r = Rates { entries: Vec::new() };
        assert(r.table() =~= Seq::<RateSpec>::empty());
        r
    }

    /// The number of codes in the table.
    pub fn len(&self) -> (n: usize)
        ensures
            n == self.table().len(),
    {
        self.entries.len()
    }

    /// The code and the rate of the entry at `i`.
    pub fn entry(&self, i: usize) -> (r: (&String, &String))
        requires
            i < self.table().len(),
        ensures
            (r.0@, r.1@) == self.table()[i as int],
    {
        let e = &self.entries[i];
        (&e.0, &e.1)
    }

    /// Sets the rate of `code`: an existing entry keeps its place and takes the new
    /// rate, a new code is added at the end.
    pub fn insert(&mut self, code: String, rate: String)
        requires
            old(self).wf(),
        ensures
            final(self).wf(),
            forall|i: int| 0 <= i < old(self).table().len() && #[trigger] old(self).table()[i].0 == code@
                ==> final(self).table() == old(self).table().update(
                    i,
                    (code@, rate@),
                ),
            (forall|i: int|
                0 <= i < old(self).table().len() ==> old(self).table()[i].0 != code@)
                ==> final(self).table() == old(self).table().push((code@, rate@)),
    {
        let n: usize = self.entries.len();
        let mut i: usize = 0;
        while i < n
            invariant
                n == self.entries.len(),
                i <= n,
                self.wf(),
                self.table() == old(self).table(),
                forall|k: int| 0 <= k < i ==> self.table()[k].0 != code@,
            decreases n - i,
        {
            if self.entries[i].0 == code {
                let ghost before = self.table();
                assert(before[i as int].0 == code@);
                assert(forall|k: int| 0 <= k < n && #[trigger] before[k].0 == code@ ==> k == i);
                self.entries.set(i, (code, rate));
                assert(self.table() =~= before.update(i as int, (code@, rate@)));
                assert(self.wf()) by {
                    assert forall|a: int, b: int|
                        0 <= a < self.table().len() && 0 <= b < self.table().len() && a != b
                            implies #[trigger] self.table()[a].0 != #[trigger] self.table()[b].0 by {
                        assert(before[a].0 != before[b].0);
                    }
                }
                return;
            }
            i += 1;
        }
        let ghost before = self.table();
        self.entries.push((code, rate));
        assert(self.table() =~= before.push((code@, rate@)));
        assert(self.wf()) by {
            assert forall|a: int, b: int|
                0 <= a < self.table().len() && 0 <= b < self.table().len() && a != b
                    implies #[trigger] self.table()[a].0 != #[trigger] self.table()[b].0 by {
                if a < n && b < n {
                    assert(before[a].0 != before[b].0);
                }
            }
        }
    }

    /// The entry whose code is the longest substitutable code that starts at
    /// character position `pos` of `expr`, with the length of that code.
    fn match_at(&self, expr: &str, pos: usize) -> (r: Option<(usize, usize)>)
        requires
            pos <= expr@.len(),
        ensures
            match r {
                Some((j, len)) => longest_match(self.table(), expr@.skip(pos as int), self.table().len())
                    == Some(j as int) && len == self.table()[j as int].0.len(),
                None => longest_match(self.table(), expr@.skip(pos as int), self.table().len()) is None,
            },
    {
        let ghost rest = expr@.skip(pos as int);
        let mut best: Option<(usize, usize)> = None;
        let mut j: usize = 0;
        while j < self.entries.len()
            invariant
                pos <= expr@.len(),
                rest == expr@.skip(pos as int),
                j <= self.table().len(),
                match best {
                    Some((b, len)) => longest_match(self.table(), rest, j as nat) == Some(b as int)
                        && b < j && len == self.table()[b as int].0.len(),
                    None => longest_match(self.table(), rest, j as nat) is None,
                },
            decreases self.table().len() - j,
        {
            let code = self.entries[j].0.as_str();
            assert(code@ == self.table()[j as int].0);
            let len: usize = code.unicode_len();
            let longer = match best {
                Some((_, best_len)) => best_len < len,
                None => true,
            };
            if longer && is_substitutable(code) && occurs_at(expr, pos, code) {
                best = Some((j, len));
            }
            j += 1;
        }
        best
    }

    /// `expr` with every currency code of the table replaced by its rate in
    /// parentheses, read once from left to right; the home code `"00"` is left as
    /// it is.
    pub fn replace(&self, expr: &str) -> (r: String)
        ensures
            r@ == substituted(self.table(), expr@),
    {
        let ghost table = self.table();
        let n: usize = expr.unicode_len();
        let mut out = String::new();
        let mut pos: usize = 0;
        assert(expr@.skip(0) =~= expr@);
        while pos < n
            invariant
                n == expr@.len(),
                pos <= n,
                table == self.table(),
                out@ + substituted(table, expr@.skip(pos as int)) == substituted(table, expr@),
            decreases n - pos,
        {
            let ghost rest = expr@.skip(pos as int);
            let ghost before = out@;
            match self.match_at(expr, pos) {
                Some((j, len)) => {
                    proof {
                        lemma_longest_match(table, rest, table.len());
                    }
                    let rate = self.entries[j].1.as_str();
                    assert(rate@ == table[j as int].1);
                    proof {
                        reveal_strlit("(");
                        reveal_strlit(")");
                        assert("("@ =~= seq!['(']);
                        assert(")"@ =~= seq![')']);
                    }
                    out.append("(");
                    out.append(rate);
                    out.append(")");
                    assert(rest.skip(len as int) =~= expr@.skip(pos + len));
                    assert(out@ =~= before + parenthesized(rate@));
                    pos += len;
                },
                None => {
                    out.append(expr.substring_char(pos, pos + 1));
                    assert(rest.skip(1) =~= expr@.skip(pos + 1));
                    assert(out@ =~= before + seq![rest[0]]);
                    pos += 1;
                },
            }
        }
        assert(expr@.skip(n as int) =~= Seq::<char>::empty());
        out
    }
}

} // verus!
