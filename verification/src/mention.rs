use vstd::prelude::*;
use vstd::string::*;
use crate::text::{is_digit, digit_run, digits_val, dec_digits, all_digits, digits_value, scan_digit_run, lemma_digit_run_props, lemma_digit_run_exact, lemma_digits_val_bound, lemma_pow10_monotone, lemma_pow10_18, lemma_dec_digits_props, lemma_dec_digits_len};

verus! {

/// A token produced by decoding embedded mention markup: either literal
/// passthrough text or a decoded mention with a display name and a numeric
/// platform-native id.
#[derive(Debug, PartialEq)]
pub enum MentionText {
    Text(String),
    MentionText { name: String, id: i64 },
}

/// The mathematical form of a mention token.
pub enum MentionTok {
    Text(Seq<char>),
    Mention { name: Seq<char>, id: int },
}

impl View for MentionText {
    type V = MentionTok;

    open spec fn view(&self) -> MentionTok {
        match self {
            MentionText::Text(t) => MentionTok::Text(t@),
            MentionText::MentionText { name, id } => MentionTok::Mention {
                name: name@,
                id: *id as int,
            },
        }
    }
}

pub open spec fn toks_view(s: Seq<MentionText>) -> Seq<MentionTok> {
    s.map_values(|m: MentionText| m@)
}

/// A character that may appear in a mention's name part: anything but the
/// mention marker and a newline.
pub open spec fn is_name_char(c: char) -> bool {
    c != '@' && c != '\n'
}

/// An encoded mention opens with the fixed platform tag marker `@[QQ] `.
pub open spec fn tag_at(s: Seq<char>, i: int) -> bool {
    &&& 0 <= i
    &&& i + 6 <= s.len()
    &&& s[i] == '@'
    &&& s[i + 1] == '['
    &&& s[i + 2] == 'Q'
    &&& s[i + 3] == 'Q'
    &&& s[i + 4] == ']'
    &&& s[i + 5] == ' '
}

/// The first position at or after `j` that is the end of the text or holds a
/// character that cannot belong to a mention's name.
pub open spec fn name_extent(s: Seq<char>, j: int) -> int
    decreases s.len() - j,
    when 0 <= j <= s.len()
{
    if j < s.len() && is_name_char(s[j]) {
        name_extent(s, j + 1)
    } else {
        j
    }
}

/// Position `k` opens the digit group of a mention: `(`, then one to eighteen
/// decimal digits, then `)`. The bound of eighteen digits keeps every decoded
/// id inside the id type.
pub open spec fn paren_ok(s: Seq<char>, k: int) -> bool {
    &&& 0 <= k < s.len()
    &&& s[k] == '('
    &&& 1 <= digit_run(s, k + 1) <= 18
    &&& k + 1 + digit_run(s, k + 1) < s.len()
    &&& s[k + 1 + digit_run(s, k + 1)] == ')'
}

/// The greatest position in `lo ..= k` that opens a digit group. The greatest
/// is taken because the name part is matched greedily.
pub open spec fn paren_back(s: Seq<char>, lo: int, k: int) -> Option<int>
    decreases k - lo + 1,
{
    if k < lo || lo < 0 {
        None
    } else if paren_ok(s, k) {
        Some(k)
    } else {
        paren_back(s, lo, k - 1)
    }
}

/// An encoded mention occurs at position `i`: the tag marker, a non-empty run
/// of name characters, and a digit group.
pub open spec fn match_at(s: Seq<char>, i: int) -> bool {
    tag_at(s, i) && paren_back(s, i + 7, name_extent(s, i + 6) - 1) is Some
}

/// The position of the `(` that splits the mention at `i` into name and digits.
pub open spec fn match_k(s: Seq<char>, i: int) -> int {
    paren_back(s, i + 7, name_extent(s, i + 6) - 1)->0
}

pub open spec fn match_digit_len(s: Seq<char>, i: int) -> int {
    digit_run(s, match_k(s, i) + 1)
}

/// The position just past the mention that starts at `i`.
pub open spec fn match_end(s: Seq<char>, i: int) -> int {
    match_k(s, i) + 2 + match_digit_len(s, i)
}

pub open spec fn match_name(s: Seq<char>, i: int) -> Seq<char> {
    s.subrange(i + 6, match_k(s, i))
}

pub open spec fn match_id(s: Seq<char>, i: int) -> int {
    digits_val(s.subrange(match_k(s, i) + 1, match_k(s, i) + 1 + match_digit_len(s, i)))
}

/// The position of the leftmost encoded mention at or after `i`.
pub open spec fn find_from(s: Seq<char>, i: int) -> Option<int>
    decreases s.len() - i,
    when 0 <= i <= s.len()
{
    if i >= s.len() {
        None
    } else if match_at(s, i) {
        Some(i)
    } else {
        find_from(s, i + 1)
    }
}

pub proof fn lemma_name_extent(s: Seq<char>, j: int)
    requires
        0 <= j <= s.len(),
    ensures
        j <= name_extent(s, j) <= s.len(),
        forall|t: int| j <= t < name_extent(s, j) ==> is_name_char(#[trigger] s[t]),
        name_extent(s, j) < s.len() ==> !is_name_char(s[name_extent(s, j)]),
    decreases s.len() - j,
{
    if j < s.len() && is_name_char(s[j]) {
        lemma_name_extent(s, j + 1);
    }
}

pub proof fn lemma_name_extent_exact(s: Seq<char>, j: int, m: int)
    requires
        0 <= j <= m <= s.len(),
        forall|t: int| j <= t < m ==> is_name_char(#[trigger] s[t]),
        m < s.len() ==> !is_name_char(s[m]),
    ensures
        name_extent(s, j) == m,
    decreases m - j,
{
    if j < m {
        lemma_name_extent_exact(s, j + 1, m);
    }
}

pub proof fn lemma_paren_back(s: Seq<char>, lo: int, k: int)
    requires
        0 <= lo,
    ensures
        paren_back(s, lo, k) matches Some(k0) ==> lo <= k0 <= k && paren_ok(s, k0),
        paren_back(s, lo, k) is None ==> forall|t: int| lo <= t <= k ==> !paren_ok(s, t),
    decreases k - lo + 1,
{
    if k >= lo && !paren_ok(s, k) {
        lemma_paren_back(s, lo, k - 1);
    }
}

/// If `k0` opens a digit group and nothing above it up to `hi` does, the
/// greedy search finds exactly `k0`.
pub proof fn lemma_paren_back_exact(s: Seq<char>, lo: int, hi: int, k0: int)
    requires
        0 <= lo <= k0 <= hi,
        paren_ok(s, k0),
        forall|t: int| k0 < t <= hi ==> !paren_ok(s, t),
    ensures
        paren_back(s, lo, hi) == Some(k0),
    decreases hi - k0,
{
    if hi > k0 {
        lemma_paren_back_exact(s, lo, hi - 1, k0);
    }
}

pub proof fn lemma_match_props(s: Seq<char>, i: int)
    requires
        match_at(s, i),
    ensures
        i + 7 <= match_k(s, i) < name_extent(s, i + 6),
        paren_ok(s, match_k(s, i)),
        1 <= match_digit_len(s, i) <= 18,
        i + 8 <= match_end(s, i) <= s.len(),
        forall|t: int|
            match_k(s, i) < t < match_end(s, i) - 1 ==> is_digit(#[trigger] s[t]),
{
    lemma_name_extent(s, i + 6);
    lemma_paren_back(s, i + 7, name_extent(s, i + 6) - 1);
    lemma_digit_run_props(s, match_k(s, i) + 1);
}

pub proof fn lemma_find_from_props(s: Seq<char>, i: int)
    requires
        0 <= i <= s.len(),
    ensures
        find_from(s, i) matches Some(p) ==> i <= p < s.len() && match_at(s, p),
    decreases s.len() - i,
{
    if i < s.len() && !match_at(s, i) {
        lemma_find_from_props(s, i + 1);
    }
}

/// The tokens decoded from `s`, from position `i` on: literal text up to the
/// leftmost mention, the mention itself, and then the rest; empty literal
/// segments are suppressed, so every emitted text token is non-empty.
pub open spec fn parse_from(s: Seq<char>, i: int) -> Seq<MentionTok>
    decreases s.len() - i,
    when 0 <= i <= s.len()
    via parse_from_decreases
{
    match find_from(s, i) {
        None => if i < s.len() {
            seq![MentionTok::Text(s.subrange(i, s.len() as int))]
        } else {
            Seq::empty()
        },
        Some(p) => {
            let pre: Seq<MentionTok> = if p > i {
                seq![MentionTok::Text(s.subrange(i, p))]
            } else {
                Seq::empty()
            };
            pre + seq![
                MentionTok::Mention { name: match_name(s, p), id: match_id(s, p) },
            ] + parse_from(s, match_end(s, p))
        },
    }
}

#[via_fn]
proof fn parse_from_decreases(s: Seq<char>, i: int) {
    if 0 <= i <= s.len() {
        lemma_find_from_props(s, i);
        match find_from(s, i) {
            Some(p) => lemma_match_props(s, p),
            None => (),
        }
    }
}

pub proof fn lemma_toks_push(s: Seq<MentionText>, x: MentionText)
    ensures
        toks_view(s.push(x)) =~= toks_view(s).push(x@),
{
}

fn check_tag(s: &str, n: usize, i: usize) -> (b: bool)
    requires
        n == s@.len(),
        i <= n,
    ensures
        b == tag_at(s@, i as int),
{
    if n < 6 || i > n - 6 {
        return false;
    }
    s.get_char(i) == '@' && s.get_char(i + 1) == '[' && s.get_char(i + 2) == 'Q' && s.get_char(
        i + 3,
    ) == 'Q' && s.get_char(i + 4) == ']' && s.get_char(i + 5) == ' '
}

fn scan_name_extent(s: &str, n: usize, j: usize) -> (e: usize)
    requires
        n == s@.len(),
        j <= n,
    ensures
        e == name_extent(s@, j as int),
        j <= e <= n,
{
    let mut t: usize = j;
    loop
        invariant
            j <= t <= n,
            n == s@.len(),
            name_extent(s@, j as int) == name_extent(s@, t as int),
        ensures
            t <= n,
            name_extent(s@, j as int) == t,
        decreases n - t,
    {
        if t >= n {
            break;
        }
        let c = s.get_char(t);
        if c == '@' || c == '\n' {
            break;
        }
        t = t + 1;
    }
    t
}

fn check_paren(s: &str, n: usize, k: usize) -> (b: bool)
    requires
        n == s@.len(),
        k <= n,
    ensures
        b == paren_ok(s@, k as int),
{
    if k >= n {
        return false;
    }
    if s.get_char(k) != '(' {
        return false;
    }
    let l = scan_digit_run(s, n, k + 1);
    if l < 1 || l > 18 {
        return false;
    }
    if k + 1 + l >= n {
        return false;
    }
    s.get_char(k + 1 + l) == ')'
}

/// The greedy backward search for the digit group, over positions
/// `lo ..= hi_plus - 1`.
fn scan_paren_back(s: &str, n: usize, lo: usize, hi_plus: usize) -> (r: Option<usize>)
    requires
        n == s@.len(),
        hi_plus <= n,
    ensures
        (match r {
            Some(k) => paren_back(s@, lo as int, hi_plus as int - 1) == Some(k as int) && lo <= k
                && k < hi_plus,
            None => paren_back(s@, lo as int, hi_plus as int - 1) is None,
        }),
{
    let mut t: usize = hi_plus;
    loop
        invariant
            t <= hi_plus <= n,
            n == s@.len(),
            paren_back(s@, lo as int, hi_plus as int - 1) == paren_back(s@, lo as int, t as int - 1),
        ensures
            (match paren_back(s@, lo as int, hi_plus as int - 1) {
                Some(k0) => t >= 1 && k0 == t as int - 1 && lo <= k0 < hi_plus,
                None => t <= lo,
            }),
        decreases t,
    {
        if t <= lo {
            break;
        }
        if check_paren(s, n, t - 1) {
            proof {
                lemma_paren_back(s@, lo as int, t as int - 1);
            }
            break;
        }
        t = t - 1;
    }
    if t > lo {
        Some(t - 1)
    } else {
        None
    }
}

fn check_match(s: &str, n: usize, i: usize) -> (b: bool)
    requires
        n == s@.len(),
        i <= n,
    ensures
        b == match_at(s@, i as int),
{
    if !check_tag(s, n, i) {
        return false;
    }
    let ext = scan_name_extent(s, n, i + 6);
    if ext <= i + 6 {
        return false;
    }
    let pb = scan_paren_back(s, n, i + 7, ext);
    pb.is_some()
}

fn find_mention(s: &str, n: usize, i: usize) -> (r: Option<usize>)
    requires
        n == s@.len(),
        i <= n,
    ensures
        (match r {
            Some(p) => find_from(s@, i as int) == Some(p as int) && i <= p && p < n,
            None => find_from(s@, i as int) is None,
        }),
{
    let mut t: usize = i;
    loop
        invariant
            i <= t <= n,
            n == s@.len(),
            find_from(s@, i as int) == find_from(s@, t as int),
        ensures
            (match find_from(s@, i as int) {
                Some(p) => t < n && p == t as int,
                None => t == n,
            }),
        decreases n - t,
    {
        if t >= n {
            break;
        }
        if check_match(s, n, t) {
            break;
        }
        t = t + 1;
    }
    if t < n {
        Some(t)
    } else {
        None
    }
}

/// Decodes embedded mention markup: scans the text left to right for the
/// leftmost occurrence of `@[QQ] name(digits)`, emits the text before it (when
/// non-empty) and the decoded mention, and continues after the occurrence.
/// The scan advances a cursor over single occurrences, so the same mention
/// text appearing twice yields two separate mention tokens.
pub fn parse_text_mention_rule(text: String) -> (r: Vec<MentionText>)
    ensures
        toks_view(r@) == parse_from(text@, 0),
{
    let s: &str = text.as_str();
    let n: usize = s.unicode_len();
    let mut out: Vec<MentionText> = Vec::new();
    let mut cur: usize = 0;
    loop
        invariant_except_break
            parse_from(text@, 0) == toks_view(out@) + parse_from(s@, cur as int),
        invariant
            cur <= n,
            n == s@.len(),
            s@ == text@,
        ensures
            toks_view(out@) == parse_from(text@, 0),
        decreases n - cur,
    {
        match find_mention(s, n, cur) {
            None => {
                if cur < n {
                    let tail = s.substring_char(cur, n).to_owned();
                    proof {
                        lemma_toks_push(out@, MentionText::Text(tail));
                    }
                    out.push(MentionText::Text(tail));
                    proof {
                        assert(parse_from(s@, cur as int) =~= seq![
                            MentionTok::Text(s@.subrange(cur as int, s@.len() as int)),
                        ]);
                        assert(toks_view(out@) =~= parse_from(text@, 0));
                    }
                } else {
                    proof {
                        assert(parse_from(s@, cur as int) =~= Seq::<MentionTok>::empty());
                        assert(toks_view(out@) =~= parse_from(text@, 0));
                    }
                }
                break;
            },
            Some(p) => {
                proof {
                    lemma_find_from_props(s@, cur as int);
                    lemma_match_props(s@, p as int);
                }
                let ghost old_toks = toks_view(out@);
                let ghost pre_toks: Seq<MentionTok> = if p > cur {
                    seq![MentionTok::Text(s@.subrange(cur as int, p as int))]
                } else {
                    Seq::empty()
                };
                if p > cur {
                    let pre = s.substring_char(cur, p).to_owned();
                    proof {
                        lemma_toks_push(out@, MentionText::Text(pre));
                    }
                    out.push(MentionText::Text(pre));
                }
                proof {
                    assert(toks_view(out@) =~= old_toks + pre_toks);
                }
                let ext = scan_name_extent(s, n, p + 6);
                let kopt = scan_paren_back(s, n, p + 7, ext);
                let k: usize;
                match kopt {
                    Some(kk) => {
                        k = kk;
                    },
                    None => {
                        assert(false);
                        k = 0;
                    },
                }
                let l = scan_digit_run(s, n, k + 1);
                let name = s.substring_char(p + 6, k).to_owned();
                proof {
                    lemma_digits_val_bound(s@.subrange(k as int + 1, k as int + 1 + l as int));
                    lemma_pow10_monotone((l as nat), 18);
                    lemma_pow10_18();
                    assert(forall|t: int|
                        k + 1 <= t < k + 1 + l ==> is_digit(#[trigger] s@[t]));
                    assert(all_digits(s@.subrange(k as int + 1, k as int + 1 + l as int)));
                }
                let id64 = digits_value(s, n, k + 1, l);
                let id: i64 = id64 as i64;
                let mention = MentionText::MentionText { name, id };
                proof {
                    lemma_toks_push(out@, mention);
                }
                out.push(mention);
                let ghost old_cur = cur as int;
                cur = k + 2 + l;
                proof {
                    assert(mention@ == MentionTok::Mention {
                        name: match_name(s@, p as int),
                        id: match_id(s@, p as int),
                    });
                    assert(parse_from(s@, old_cur) =~= pre_toks + seq![
                        MentionTok::Mention {
                            name: match_name(s@, p as int),
                            id: match_id(s@, p as int),
                        },
                    ] + parse_from(s@, cur as int));
                    assert(parse_from(text@, 0) =~= toks_view(out@) + parse_from(
                        s@,
                        cur as int,
                    ));
                }
            },
        }
    }
    out
}

/// The text-embeddable encoding of a mention: the tag marker, the name, and
/// the id's decimal digits in parentheses.
pub open spec fn mention_encoding(name: Seq<char>, id: int) -> Seq<char> {
    seq!['@', '[', 'Q', 'Q', ']', ' '] + name + seq!['('] + dec_digits(id) + seq![')']
}

/// Law: decoding the encoding of a mention yields exactly that one mention
/// token, for every name made of name characters and every id the digit group
/// can carry.
pub proof fn lemma_mention_round_trip(name: Seq<char>, id: int)
    requires
        name.len() >= 1,
        forall|i: int| 0 <= i < name.len() ==> is_name_char(#[trigger] name[i]),
        0 <= id < 1000000000000000000,
    ensures
        parse_from(mention_encoding(name, id), 0) =~= seq![
            MentionTok::Mention { name, id },
        ],
{
    let s = mention_encoding(name, id);
    let d = dec_digits(id);
    lemma_dec_digits_props(id);
    lemma_pow10_18();
    lemma_dec_digits_len(id, 18);
    let k0 = 6 + name.len() as int;
    let l = d.len() as int;
    assert(s.len() == k0 + l + 2);
    assert(s[0] == '@' && s[1] == '[' && s[2] == 'Q' && s[3] == 'Q' && s[4] == ']' && s[5] == ' ');
    assert(forall|t: int| 6 <= t < k0 ==> s[t] == name[t - 6]);
    assert(s[k0] == '(');
    assert(forall|t: int| k0 + 1 <= t < k0 + 1 + l ==> s[t] == d[t - (k0 + 1)]);
    assert(s[k0 + 1 + l] == ')');
    assert(tag_at(s, 0));
    // every character from the name on is a name character
    assert forall|t: int| 6 <= t < s.len() implies is_name_char(#[trigger] s[t]) by {
        if t < k0 {
            assert(is_name_char(name[t - 6]));
        } else if t == k0 {
            assert(s[t] == '(');
        } else if t < k0 + 1 + l {
            assert(is_digit(d[t - (k0 + 1)]));
        } else {
            assert(s[t] == ')');
        }
    }
    lemma_name_extent_exact(s, 6, s.len() as int);
    assert forall|t: int| k0 + 1 <= t < k0 + 1 + l implies is_digit(#[trigger] s[t]) by {
        assert(is_digit(d[t - (k0 + 1)]));
    }
    lemma_digit_run_exact(s, k0 + 1, k0 + 1 + l);
    assert(paren_ok(s, k0));
    assert forall|t: int| k0 < t <= s.len() - 1 implies !paren_ok(s, t) by {
        if t < k0 + 1 + l {
            assert(is_digit(s[t]));
            assert(s[t] != '(');
        } else {
            assert(s[t] == ')');
        }
    }
    lemma_paren_back_exact(s, 7, s.len() as int - 1, k0);
    assert(name_extent(s, 6) - 1 == s.len() - 1);
    assert(match_at(s, 0));
    assert(match_k(s, 0) == k0);
    assert(match_digit_len(s, 0) == l);
    assert(match_end(s, 0) == s.len());
    assert(match_name(s, 0) =~= name);
    assert(s.subrange(k0 + 1, k0 + 1 + l) =~= d);
    assert(match_id(s, 0) == id);
    assert(find_from(s, 0) == Some(0int));
    assert(find_from(s, s.len() as int) is None);
    assert(parse_from(s, s.len() as int) =~= Seq::<MentionTok>::empty());
    assert(parse_from(s, 0) =~= seq![MentionTok::Mention { name, id }]);
}

/// What `encode_mention` produces for this platform's tag and a display text
/// of the canonical `name(id)` shape is exactly the encoding the round-trip
/// law speaks of.
pub proof fn lemma_encode_mention_form(platform: Seq<char>, name: Seq<char>, id: int)
    requires
        platform == "QQ"@,
    ensures
        seq!['@', '['] + platform + seq![']', ' '] + (name + seq!['('] + dec_digits(id) + seq![
            ')',
        ]) =~= mention_encoding(name, id),
{
    reveal_strlit("QQ");
}

/// Builds the embeddable text form of a mention from a platform tag and the
/// canonical display text, `@[tag] display`.
pub fn encode_mention(platform: &str, display_text: &str) -> (r: String)
    ensures
        r@ == seq!['@', '['] + platform@ + seq![']', ' '] + display_text@,
{
    proof {
        reveal_strlit("@[");
        reveal_strlit("] ");
    }
    let mut r = String::from_str("@[");
    r.append(platform);
    r.append("] ");
    r.append(display_text);
    proof {
        assert(r@ =~= seq!['@', '['] + platform@ + seq![']', ' '] + display_text@);
    }
    r
}

} // verus!
