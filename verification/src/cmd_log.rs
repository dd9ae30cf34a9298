use vstd::prelude::*;
use crate::json::texts;
use crate::service_config::string_pairs;
use crate::text::{bytes_at_least, join, lemma_join_push, utf8_len};
use crate::text_fmt::push_char;
use crate::tiles::append_str;

verus! {

/// The replacement text put before, between and after the characters of a text: what
/// replacing the empty pattern gives.
pub open spec fn spread(s: Seq<char>, rep: Seq<char>) -> Seq<char>
    decreases s.len(),
{
    if s.len() == 0 { rep } else { rep + seq![s[0]] + spread(s.drop_first(), rep) }
}

/// Every occurrence of `pat` in `s` replaced by `rep`, the occurrences found from the
/// left and not overlapping (`str::replace`).
pub open spec fn replace_all(s: Seq<char>, pat: Seq<char>, rep: Seq<char>) -> Seq<char>
    decreases s.len(),
{
    if pat.len() == 0 {
        spread(s, rep)
    } else if s.len() < pat.len() {
        s
    } else if s.take(pat.len() as int) == pat {
        rep + replace_all(s.skip(pat.len() as int), pat, rep)
    } else {
        seq![s[0]] + replace_all(s.drop_first(), pat, rep)
    }
}

/// A text with the values of the pairs replaced by their names, pair by pair in order.
pub open spec fn replace_pairs(s: Seq<char>, pairs: Seq<(Seq<char>, Seq<char>)>) -> Seq<char>
    decreases pairs.len(),
{
    if pairs.len() == 0 {
        s
    } else {
        replace_pairs(replace_all(s, pairs[0].0, pairs[0].1), pairs.drop_first())
    }
}

proof fn lemma_spread_starts(s: Seq<char>, rep: Seq<char>)
    ensures
        spread(s, rep).len() >= rep.len(),
        spread(s, rep) =~= rep + spread(s, rep).skip(rep.len() as int),
{
    if s.len() > 0 {
        assert(spread(s, rep) =~= rep + (seq![s[0]] + spread(s.drop_first(), rep)));
    }
}

proof fn lemma_replace_all_short(s: Seq<char>, pat: Seq<char>, rep: Seq<char>)
    requires
        pat.len() > 0,
        s.len() < pat.len(),
    ensures
        replace_all(s, pat, rep) == s,
{
}

/// Whether `pat` occurs in `s` at character `i`.
fn occurs_here(s: &str, n: usize, pat: &str, m: usize, i: usize) -> (res: bool)
    requires
        n == s@.len(),
        m == pat@.len(),
        i + m <= n,
    ensures
        res == (s@.subrange(i as int, i + m) == pat@),
{
    let mut j: usize = 0;
    while j < m
        invariant
            n == s@.len(),
            m == pat@.len(),
            i + m <= n,
            j <= m,
            forall|t: int| 0 <= t < j ==> s@[i + t] == pat@[t],
        decreases m - j,
    {
        if s.get_char(i + j) != pat.get_char(j) {
            assert(s@.subrange(i as int, i + m)[j as int] != pat@[j as int]);
            return false;
        }
        j = j + 1;
    }
    assert(s@.subrange(i as int, i + m) =~= pat@);
    true
}

/// Every occurrence of `pat` in `s` replaced by `rep` (`str::replace`).
pub fn replace_text(s: &str, pat: &str, rep: &str) -> (res: String)
    ensures
        res@ == replace_all(s@, pat@, rep@),
{
    let n = s.unicode_len();
    let m = pat.unicode_len();
    let mut res = String::new();
    let mut i: usize = 0;
    assert(s@.skip(0) =~= s@);
    if m == 0 {
        append_str(&mut res, rep);
        proof { lemma_spread_starts(s@, rep@); }
        while i < n
            invariant
                n == s@.len(),
                i <= n,
                pat@.len() == 0,
                res@ + spread(s@.skip(i as int), rep@).skip(rep@.len() as int) == spread(s@, rep@),
                res@.len() >= rep@.len(),
                res@.subrange(res@.len() - rep@.len(), res@.len() as int) == rep@,
            decreases n - i,
        {
            let ghost before = res@;
            let c = s.get_char(i);
            push_char(&mut res, c);
            append_str(&mut res, rep);
            proof {
                let rest = s@.skip(i as int);
                assert(rest.drop_first() =~= s@.skip(i + 1));
                assert(spread(rest, rep@) == rep@ + seq![c] + spread(s@.skip(i + 1), rep@));
                assert(spread(rest, rep@).skip(rep@.len() as int) =~= seq![c] + spread(s@.skip(i + 1), rep@));
                let sp = spread(s@.skip(i + 1), rep@);
                assert(sp.len() >= rep@.len() && sp.take(rep@.len() as int) == rep@) by {
                    if s@.skip(i + 1).len() == 0 {
                        assert(sp == rep@);
                    } else {
                        assert(sp =~= rep@ + seq![s@.skip(i + 1)[0]] + spread(s@.skip(i + 1).drop_first(), rep@));
                    }
                }
                assert(sp =~= rep@ + sp.skip(rep@.len() as int));
                assert(res@ =~= before.push(c) + rep@);
                assert(res@ + sp.skip(rep@.len() as int) =~= before + spread(rest, rep@).skip(rep@.len() as int));
            }
            i = i + 1;
        }
        proof {
            assert(s@.skip(n as int) =~= Seq::<char>::empty());
            assert(spread(s@.skip(n as int), rep@).skip(rep@.len() as int) =~= Seq::<char>::empty());
            assert(res@ =~= spread(s@, rep@));
        }
        return res;
    }
    while i < n
        invariant
            n == s@.len(),
            m == pat@.len(),
            m > 0,
            i <= n,
            res@ + replace_all(s@.skip(i as int), pat@, rep@) == replace_all(s@, pat@, rep@),
        decreases n - i,
    {
        let rest = Ghost(s@.skip(i as int));
        if m <= n - i && occurs_here(s, n, pat, m, i) {
            proof {
                assert(rest@.take(m as int) =~= s@.subrange(i as int, i + m));
                assert(rest@.skip(m as int) =~= s@.skip(i + m));
            }
            append_str(&mut res, rep);
            i = i + m;
        } else {
            let c = s.get_char(i);
            proof {
                assert(rest@.drop_first() =~= s@.skip(i + 1));
                if i + m <= n {
                    assert(rest@.take(m as int) =~= s@.subrange(i as int, i + m));
                } else {
                    lemma_replace_all_short(rest@, pat@, rep@);
                    lemma_replace_all_short(s@.skip(i + 1), pat@, rep@);
                    assert(rest@ =~= seq![c] + s@.skip(i + 1));
                }
            }
            push_char(&mut res, c);
            i = i + 1;
        }
    }
    proof {
        assert(s@.skip(i as int) =~= Seq::<char>::empty());
        assert(res@ =~= replace_all(s@, pat@, rep@));
    }
    res
}

/// A match of the account key pattern at character `i`: "AccountKey=" followed by at
/// least one character other than ';'.
pub open spec fn account_key_at(s: Seq<char>, i: int) -> bool {
    0 <= i && i + 11 < s.len() && s.subrange(i, i + 11) == "AccountKey="@ && s[i + 11] != ';'
}

/// Whether the text holds an account key.
pub open spec fn has_account_key(s: Seq<char>) -> bool {
    exists|i: int| #[trigger] account_key_at(s, i)
}

/// The leftmost account key of a text.
pub open spec fn first_account_key(s: Seq<char>) -> int {
    choose|i: int| #[trigger] account_key_at(s, i) && forall|k: int| 0 <= k < i ==> !account_key_at(s, k)
}

/// The end of the run of characters other than ';' that starts at `j`.
pub open spec fn run_end(s: Seq<char>, j: int) -> int
    decreases s.len() - j,
{
    if 0 <= j < s.len() && s[j] != ';' { run_end(s, j + 1) } else { j }
}

/// The key of the leftmost account key: the characters after "AccountKey=" up to the
/// next ';' or the end.
pub open spec fn account_key_text(s: Seq<char>) -> Seq<char> {
    let i = first_account_key(s);
    s.subrange(i + 11, run_end(s, i + 11))
}

/// A text can be masked: it holds no account key, or the key has at least three bytes.
pub open spec fn mask_ok(s: Seq<char>) -> bool {
    has_account_key(s) ==> utf8_len(account_key_text(s)) >= 3
}

/// The mask of a key of `n` bytes: "AccountKey=", an 'X' for each byte but three, "x==".
pub open spec fn key_mask(n: int) -> Seq<char> {
    "AccountKey="@ + Seq::new((n - 3) as nat, |k: int| 'X') + "x=="@
}

/// A text with its leftmost account key masked (the regular expression
/// `(AccountKey=)([^;]+)` replaced once).
pub open spec fn masked(s: Seq<char>) -> Seq<char> {
    if has_account_key(s) {
        let i = first_account_key(s);
        s.take(i) + key_mask(utf8_len(account_key_text(s)) as int) + s.skip(run_end(s, i + 11))
    } else {
        s
    }
}

/// The mask of a key of `n` bytes.
pub(crate) fn account_key_mask(n: usize) -> (res: String)
    requires
        n >= 3,
    ensures
        res@ == key_mask(n as int),
{
    let mut res = String::from_str("AccountKey=");
    let mut k: usize = 0;
    while k < n - 3
        invariant
            n >= 3,
            k <= n - 3,
            res@ == "AccountKey="@ + Seq::new(k as nat, |t: int| 'X'),
        decreases n - 3 - k,
    {
        push_char(&mut res, 'X');
        assert(res@ =~= "AccountKey="@ + Seq::new((k + 1) as nat, |t: int| 'X'));
        k = k + 1;
    }
    append_str(&mut res, "x==");
    res
}

/// Masks the leftmost account key of a text with the regular expression
/// `(AccountKey=)([^;]+)` (`regex::Regex::replace`, which replaces the leftmost match;
/// `[^;]+` takes the longest run of characters other than ';'), the key's bytes but the
/// last three turned into 'X' and those into "x==". A key of fewer than three bytes
/// would panic, which `requires` leaves out.
#[verifier::external_body]
fn mask_account_key(arg: &str) -> (res: String)
    requires
        mask_ok(arg@),
    ensures
        res@ == masked(arg@),
{
    let re = regex::Regex::new(r"(AccountKey=)([^;]+)").unwrap();
    re.replace(arg, |caps: &regex::Captures| account_key_mask(caps[2].len())).to_string()
}

proof fn lemma_first_account_key(s: Seq<char>, i: int)
    requires
        account_key_at(s, i),
        forall|k: int| 0 <= k < i ==> !account_key_at(s, k),
    ensures
        has_account_key(s),
        first_account_key(s) == i,
{
    let f = first_account_key(s);
    assert(account_key_at(s, f) && forall|k: int| 0 <= k < f ==> !account_key_at(s, k));
    if f < i {
        assert(!account_key_at(s, f));
    } else if i < f {
        assert(!account_key_at(s, i));
    }
}

/// Whether the text can be masked: it holds no account key, or the leftmost key has at
/// least three bytes.
pub fn can_mask(s: &str) -> (res: bool)
    ensures
        res == mask_ok(s@),
{
    let n = s.unicode_len();
    let marker = "AccountKey=";
    proof { reveal_strlit("AccountKey="); }
    let mut i: usize = 0;
    while i < n && n - i > 11
        invariant
            n == s@.len(),
            marker@ == "AccountKey="@,
            marker@.len() == 11,
            forall|k: int| 0 <= k < i ==> !account_key_at(s@, k),
        decreases n - i,
    {
        if occurs_here(s, n, marker, 11, i) && s.get_char(i + 11) != ';' {
            assert(account_key_at(s@, i as int));
            proof { lemma_first_account_key(s@, i as int); }
            let mut e: usize = i + 11;
            while e < n && s.get_char(e) != ';'
                invariant
                    n == s@.len(),
                    i + 11 <= e <= n,
                    run_end(s@, i + 11) == run_end(s@, e as int),
                decreases n - e,
            {
                e = e + 1;
            }
            let key = s.substring_char(i + 11, e);
            assert(key@ == account_key_text(s@));
            return bytes_at_least(key, 3);
        }
        proof {
            if account_key_at(s@, i as int) {
                assert(s@.subrange(i as int, i + 11) == marker@);
            }
        }
        i = i + 1;
    }
    assert forall|k: int| !account_key_at(s@, k) by {
        if 0 <= k && k >= i {}
    }
    true
}

/// An argument that follows `--query`, between double quotes.
pub open spec fn quoted(v: Seq<char>) -> Seq<char> {
    "\""@ + v + "\""@
}

/// An argument as the log shows it: the secrets replaced by their names, the account
/// key masked.
pub open spec fn cleaned(s: Seq<char>, pairs: Seq<(Seq<char>, Seq<char>)>) -> Seq<char> {
    masked(replace_pairs(s, pairs))
}

/// The arguments as the log shows them, from argument `i` on: the argument after a
/// `--query` is put between quotes, and every argument looked at is cleaned (the
/// `--query` itself is passed over).
#[verifier::opaque]
pub open spec fn shown_from(t: Seq<Seq<char>>, pairs: Seq<(Seq<char>, Seq<char>)>, i: int) -> Seq<Seq<char>>
    decreases t.len() - i,
{
    if i < 0 || i >= t.len() {
        t
    } else if t[i] == "--query"@ && i + 1 < t.len() {
        shown_from(t.update(i + 1, cleaned(quoted(t[i + 1]), pairs)), pairs, i + 2)
    } else {
        shown_from(t.update(i, cleaned(t[i], pairs)), pairs, i + 1)
    }
}

/// Every argument the log shows from `i` on can be masked.
#[verifier::opaque]
pub open spec fn cleanable_from(t: Seq<Seq<char>>, pairs: Seq<(Seq<char>, Seq<char>)>, i: int) -> bool
    decreases t.len() - i,
{
    if i < 0 || i >= t.len() {
        true
    } else if t[i] == "--query"@ && i + 1 < t.len() {
        mask_ok(replace_pairs(quoted(t[i + 1]), pairs))
            && cleanable_from(t.update(i + 1, cleaned(quoted(t[i + 1]), pairs)), pairs, i + 2)
    } else {
        mask_ok(replace_pairs(t[i], pairs)) && cleanable_from(t.update(i, cleaned(t[i], pairs)), pairs, i + 1)
    }
}

proof fn lemma_query_step(t: Seq<Seq<char>>, pairs: Seq<(Seq<char>, Seq<char>)>, i: int)
    requires
        0 <= i < t.len(),
        t[i] == "--query"@,
        i + 1 < t.len(),
    ensures
        shown_from(t, pairs, i) == shown_from(t.update(i + 1, cleaned(quoted(t[i + 1]), pairs)), pairs, i + 2),
        cleanable_from(t, pairs, i) == (mask_ok(replace_pairs(quoted(t[i + 1]), pairs))
            && cleanable_from(t.update(i + 1, cleaned(quoted(t[i + 1]), pairs)), pairs, i + 2)),
{
    reveal(shown_from);
    reveal(cleanable_from);
}

proof fn lemma_plain_step(t: Seq<Seq<char>>, pairs: Seq<(Seq<char>, Seq<char>)>, i: int)
    requires
        0 <= i < t.len(),
        !(t[i] == "--query"@ && i + 1 < t.len()),
    ensures
        shown_from(t, pairs, i) == shown_from(t.update(i, cleaned(t[i], pairs)), pairs, i + 1),
        cleanable_from(t, pairs, i) == (mask_ok(replace_pairs(t[i], pairs))
            && cleanable_from(t.update(i, cleaned(t[i], pairs)), pairs, i + 1)),
{
    reveal(shown_from);
    reveal(cleanable_from);
}

proof fn lemma_done(t: Seq<Seq<char>>, pairs: Seq<(Seq<char>, Seq<char>)>, i: int)
    requires
        i >= t.len(),
    ensures
        shown_from(t, pairs, i) == t,
        cleanable_from(t, pairs, i),
{
    reveal(shown_from);
    reveal(cleanable_from);
}

/// The words of the command: the program's name and its arguments.
pub open spec fn command_words(args: Seq<String>) -> Seq<Seq<char>> {
    seq!["az"@] + texts(args)
}

/// The log line of a command.
pub open spec fn command_line(args: Seq<String>, pairs: Seq<(Seq<char>, Seq<char>)>) -> Seq<char> {
    join(shown_from(command_words(args), pairs, 0), " "@)
}

/// An argument with the values of the pairs replaced by their names, pair by pair.
fn replace_values(arg: &str, pairs: &Vec<(String, String)>) -> (res: String)
    ensures
        res@ == replace_pairs(arg@, string_pairs(pairs@)),
{
    let mut cur = String::from_str(arg);
    let mut k: usize = 0;
    assert(string_pairs(pairs@).skip(0) =~= string_pairs(pairs@));
    while k < pairs.len()
        invariant
            k <= pairs@.len(),
            replace_pairs(cur@, string_pairs(pairs@).skip(k as int)) == replace_pairs(arg@, string_pairs(pairs@)),
        decreases pairs.len() - k,
    {
        let next = replace_text(cur.as_str(), pairs[k].0.as_str(), pairs[k].1.as_str());
        proof {
            let p = string_pairs(pairs@).skip(k as int);
            assert(p[0] == (pairs@[k as int].0@, pairs@[k as int].1@));
            assert(p.drop_first() =~= string_pairs(pairs@).skip(k + 1));
        }
        cur = next;
        k = k + 1;
    }
    proof {
        assert(string_pairs(pairs@).skip(k as int) =~= Seq::<(Seq<char>, Seq<char>)>::empty());
    }
    cur
}

/// An argument as the log shows it, or nothing where its account key is too short to
/// be masked.
fn clean_arg(arg: &str, pairs: &Vec<(String, String)>) -> (res: Option<String>)
    ensures
        match res {
            Some(r) => mask_ok(replace_pairs(arg@, string_pairs(pairs@)))
                && r@ == cleaned(arg@, string_pairs(pairs@)),
            None => !mask_ok(replace_pairs(arg@, string_pairs(pairs@))),
        },
{
    let replaced = replace_values(arg, pairs);
    if can_mask(replaced.as_str()) {
        Some(mask_account_key(replaced.as_str()))
    } else {
        None
    }
}

/// The log line of a command, or nothing where an account key in it is too short to be
/// masked.
pub fn try_print_cmd(args: &Vec<String>, name_value_map: &Vec<(String, String)>) -> (res: Option<String>)
    ensures
        cleanable_from(command_words(args@), string_pairs(name_value_map@), 0) ==> (res matches Some(r)
            && r@ == command_line(args@, string_pairs(name_value_map@))),
        !cleanable_from(command_words(args@), string_pairs(name_value_map@), 0) ==> res is None,
{
    let ghost pairs = string_pairs(name_value_map@);
    let mut words: Vec<String> = Vec::new();
    words.push(String::from_str("az"));
    let mut a: usize = 0;
    while a < args.len()
        invariant
            a <= args@.len(),
            texts(words@) == command_words(args@).take(a as int + 1),
        decreases args.len() - a,
    {
        let ghost before = words@;
        words.push(args[a].clone());
        assert(texts(words@) =~= texts(before).push(args@[a as int]@));
        assert(command_words(args@).take(a as int + 2) =~= command_words(args@).take(a as int + 1).push(args@[a as int]@));
        a = a + 1;
    }
    proof { reveal_strlit("az"); }
    assert(texts(words@) =~= command_words(args@));
    let ghost t0 = texts(words@);
    let n = words.len();
    let query = String::from_str("--query");
    let mut i: usize = 0;
    while i < n
        invariant
            n == words@.len(),
            i <= n,
            t0 == command_words(args@),
            query@ == "--query"@,
            shown_from(texts(words@), pairs, i as int) == shown_from(t0, pairs, 0),
            cleanable_from(texts(words@), pairs, i as int) == cleanable_from(t0, pairs, 0),
            pairs == string_pairs(name_value_map@),
        decreases n - i,
    {
        let ghost cur = texts(words@);
        if words[i] == query && i + 1 < n {
            proof { lemma_query_step(cur, pairs, i as int); }
            let mut q = String::from_str("\"");
            append_str(&mut q, words[i + 1].as_str());
            append_str(&mut q, "\"");
            proof { reveal_strlit("\""); }
            assert(q@ =~= quoted(cur[i + 1]));
            match clean_arg(q.as_str(), name_value_map) {
                Some(c) => {
                    words.set(i + 1, c);
                    assert(texts(words@) =~= cur.update(i + 1, cleaned(quoted(cur[i + 1]), pairs)));
                },
                None => {
                    return None;
                },
            }
            i = i + 2;
        } else {
            proof { lemma_plain_step(cur, pairs, i as int); }
            match clean_arg(words[i].as_str(), name_value_map) {
                Some(c) => {
                    words.set(i, c);
                    assert(texts(words@) =~= cur.update(i as int, cleaned(cur[i as int], pairs)));
                },
                None => {
                    return None;
                },
            }
            i = i + 1;
        }
    }
    proof { lemma_done(texts(words@), pairs, i as int); }
    let mut line = String::new();
    let mut k: usize = 0;
    while k < n
        invariant
            n == words@.len(),
            k <= n,
            line@ == join(texts(words@).take(k as int), " "@),
        decreases n - k,
    {
        let ghost before = line@;
        if k > 0 {
            push_char(&mut line, ' ');
        }
        append_str(&mut line, words[k].as_str());
        proof {
            assert(texts(words@).take(k as int + 1) =~= texts(words@).take(k as int).push(words@[k as int]@));
            lemma_join_push(texts(words@).take(k as int), words@[k as int]@, " "@);
            reveal_strlit(" ");
            assert(line@ =~= join(texts(words@).take(k as int + 1), " "@));
        }
        k = k + 1;
    }
    proof {
        assert(texts(words@).take(n as int) =~= texts(words@));
    }
    Some(line)
}

/// The log line of a command: "az" and its arguments, separated by spaces, each
/// argument with the secrets of the configuration replaced by their names and its
/// account key masked, the argument after `--query` between double quotes. An account
/// key of fewer than three bytes would panic, which `requires` leaves out.
pub fn print_cmd(args: &Vec<String>, name_value_map: &Vec<(String, String)>) -> (res: String)
    requires
        cleanable_from(command_words(args@), string_pairs(name_value_map@), 0),
    ensures
        res@ == command_line(args@, string_pairs(name_value_map@)),
{
    match try_print_cmd(args, name_value_map) {
        Some(line) => line,
        None => String::new(),
    }
}

} // verus!
