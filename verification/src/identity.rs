//! Parsing a TLS distinguished name into a structured identity.
//!
//! A distinguished name is a string of `/KEY=VALUE` segments separated by
//! `/`. Empty segments are ignored; a non-empty segment splits on its first
//! `=`; when one key occurs twice the later occurrence wins. An identity
//! needs three attributes: the callsign OID, the common name `CN`, and
//! `emailAddress`.

use vstd::prelude::*;
use vstd::string::*;

verus! {

/// Key under which a member's callsign is stored in a distinguished name.
pub open spec fn callsign_key() -> Seq<char> {
    "1.3.6.1.4.1.12348.1.1"@
}

/// Key under which a member's display name is stored.
pub open spec fn display_name_key() -> Seq<char> {
    "CN"@
}

/// Key under which a member's e-mail address is stored.
pub open spec fn email_key() -> Seq<char> {
    "emailAddress"@
}

/// Index of the first `=` in `s`, or `s.len()` when there is none.
pub open spec fn first_eq_at(s: Seq<char>) -> int
    decreases s.len(),
{
    if s.len() == 0 {
        0
    } else if s[0] == '=' {
        0
    } else {
        1 + first_eq_at(s.skip(1))
    }
}

/// Index of the last `/` in `s`, or `-1` when there is none.
pub open spec fn last_slash_at(s: Seq<char>) -> int
    decreases s.len(),
{
    if s.len() == 0 {
        -1
    } else if s[s.len() - 1] == '/' {
        s.len() - 1
    } else {
        last_slash_at(s.take(s.len() - 1))
    }
}

/// Folds one slash-free segment into the attribute map: an empty segment is
/// ignored, a segment without `=` is malformed, otherwise the segment's
/// key/value pair is recorded, overriding an earlier pair with the same key.
pub open spec fn seg_pairs(m: Map<Seq<char>, Seq<char>>, seg: Seq<char>) -> Option<
    Map<Seq<char>, Seq<char>>,
> {
    if seg.len() == 0 {
        Some(m)
    } else {
        let k = first_eq_at(seg);
        if k == seg.len() {
            None
        } else {
            Some(m.insert(seg.take(k), seg.skip(k + 1)))
        }
    }
}

/// `seg_pairs` lifted over an already-failed parse.
pub open spec fn opt_seg_pairs(o: Option<Map<Seq<char>, Seq<char>>>, seg: Seq<char>) -> Option<
    Map<Seq<char>, Seq<char>>,
> {
    match o {
        None => None,
        Some(m) => seg_pairs(m, seg),
    }
}

/// The attribute map of a distinguished name, or `None` when some non-empty
/// segment lacks `=`. Segments are folded in left to right, so a later
/// occurrence of a key overrides an earlier one.
pub open spec fn dn_pairs(s: Seq<char>) -> Option<Map<Seq<char>, Seq<char>>>
    decreases s.len(),
{
    let ls = last_slash_at(s);
    if 0 <= ls && ls < s.len() {
        opt_seg_pairs(dn_pairs(s.take(ls)), s.skip(ls + 1))
    } else {
        seg_pairs(Map::empty(), s)
    }
}

/// Basic facts about `first_eq_at`: it is a position in `s` or `s.len()`,
/// it points at an `=`, and nothing before it is an `=`.
pub proof fn lemma_first_eq_at(s: Seq<char>)
    ensures
        0 <= first_eq_at(s) <= s.len(),
        first_eq_at(s) < s.len() ==> s[first_eq_at(s)] == '=',
        forall|j: int| 0 <= j < first_eq_at(s) ==> s[j] != '=',
    decreases s.len(),
{
    if s.len() == 0 {
    } else if s[0] == '=' {
    } else {
        lemma_first_eq_at(s.skip(1));
        assert forall|j: int| 0 <= j < first_eq_at(s) implies s[j] != '=' by {
            if j > 0 {
                assert(s.skip(1)[j - 1] == s[j]);
            }
        }
    }
}

/// `first_eq_at` is pinned down by exhibiting the first `=` of `s`.
pub proof fn lemma_first_eq_at_is(s: Seq<char>, k: int)
    requires
        0 <= k < s.len(),
        s[k] == '=',
        forall|j: int| 0 <= j < k ==> s[j] != '=',
    ensures
        first_eq_at(s) == k,
    decreases s.len(),
{
    if k == 0 {
    } else {
        assert(s[0] != '=');
        assert forall|j: int| 0 <= j < k - 1 implies s.skip(1)[j] != '=' by {
            assert(s.skip(1)[j] == s[j + 1]);
        }
        assert(s.skip(1)[k - 1] == s[k]);
        lemma_first_eq_at_is(s.skip(1), k - 1);
    }
}

/// When `s` has no `=` at all, `first_eq_at` is `s.len()`.
pub proof fn lemma_first_eq_at_none(s: Seq<char>)
    requires
        forall|j: int| 0 <= j < s.len() ==> s[j] != '=',
    ensures
        first_eq_at(s) == s.len(),
{
    lemma_first_eq_at(s);
    if first_eq_at(s) < s.len() {
        assert(s[first_eq_at(s)] == '=');
    }
}

/// Basic facts about `last_slash_at`: it is `-1` or a position in `s`, it
/// points at a `/`, and nothing after it is a `/`.
pub proof fn lemma_last_slash_at(s: Seq<char>)
    ensures
        -1 <= last_slash_at(s) < s.len(),
        last_slash_at(s) >= 0 ==> s[last_slash_at(s)] == '/',
        forall|j: int| last_slash_at(s) < j < s.len() ==> s[j] != '/',
    decreases s.len(),
{
    if s.len() == 0 {
    } else if s[s.len() - 1] == '/' {
    } else {
        lemma_last_slash_at(s.take(s.len() - 1));
        assert forall|j: int| last_slash_at(s) < j < s.len() implies s[j] != '/' by {
            if j < s.len() - 1 {
                assert(s.take(s.len() - 1)[j] == s[j]);
            }
        }
    }
}

/// `last_slash_at` is pinned down by a boundary `i`: position `i - 1` is a
/// `/` (or `i` is `0` and `s` is slash-free) and no `/` follows it.
pub proof fn lemma_last_slash_at_is(s: Seq<char>, i: int)
    requires
        0 <= i <= s.len(),
        i == 0 || s[i - 1] == '/',
        forall|j: int| i <= j < s.len() ==> s[j] != '/',
    ensures
        last_slash_at(s) == i - 1,
    decreases s.len(),
{
    if s.len() == 0 {
    } else if s[s.len() - 1] == '/' {
        assert(i == s.len());
    } else {
        assert(i < s.len());
        let t = s.take(s.len() - 1);
        assert forall|j: int| i <= j < t.len() implies t[j] != '/' by {
            assert(t[j] == s[j]);
        }
        if i > 0 {
            assert(t[i - 1] == s[i - 1]);
        }
        lemma_last_slash_at_is(t, i);
    }
}

/// A trailing `/` closes an empty segment, which changes nothing.
pub proof fn lemma_dn_pairs_trailing_slash(s: Seq<char>)
    requires
        s.len() > 0,
        s[s.len() - 1] == '/',
    ensures
        dn_pairs(s) == dn_pairs(s.take(s.len() - 1)),
{
    assert(last_slash_at(s) == s.len() - 1);
    assert(s.skip(s.len() as int) =~= Seq::<char>::empty());
}

/// Peeling the final segment off a string whose last slash stands at
/// `i - 1`: the whole parse is the parse of the prefix before that slash,
/// folded with the slash-free remainder.
pub proof fn lemma_dn_pairs_last_seg(s: Seq<char>, i: int)
    requires
        0 <= i <= s.len(),
        i == 0 || s[i - 1] == '/',
        forall|j: int| i <= j < s.len() ==> s[j] != '/',
    ensures
        dn_pairs(s) == opt_seg_pairs(dn_pairs(s.take(i)), s.skip(i)),
{
    lemma_last_slash_at_is(s, i);
    if i == 0 {
        assert(s.take(0) =~= Seq::<char>::empty());
        assert(s.skip(0) =~= s);
        assert(last_slash_at(Seq::<char>::empty()) == -1);
        assert(dn_pairs(s.take(0)) == Some(Map::<Seq<char>, Seq<char>>::empty()));
    } else {
        // `dn_pairs(s)` recurses on `s.take(i - 1)`; `s.take(i)` ends with
        // the slash at `i - 1`, so its parse equals the same prefix's.
        let t = s.take(i);
        assert(t[t.len() - 1] == '/');
        lemma_dn_pairs_trailing_slash(t);
        assert(t.take(i - 1) =~= s.take(i - 1));
    }
}

/// A failed prefix fails the whole string: when the parse of `s` up to a
/// segment boundary `j` is already malformed, so is the parse of `s`.
pub proof fn lemma_dn_pairs_prefix_none(s: Seq<char>, j: int)
    requires
        0 <= j <= s.len(),
        j == s.len() || s[j] == '/',
        dn_pairs(s.take(j)) is None,
    ensures
        dn_pairs(s) is None,
    decreases s.len(),
{
    if j == s.len() {
        assert(s.take(j) =~= s);
    } else {
        lemma_last_slash_at(s);
        let ls = last_slash_at(s);
        assert(ls >= j) by {
            if ls < j {
                assert(s[j] != '/');
            }
        }
        let t = s.take(ls);
        assert(t.take(j) =~= s.take(j));
        if j < ls {
            assert(t[j] == s[j]);
        }
        lemma_dn_pairs_prefix_none(t, j);
    }
}

/// Missing-field rejection: on a well-formed distinguished name that lacks
/// any one of the three required attributes, every result the parser's
/// contract admits is a `MissingField` error naming an attribute that is
/// indeed absent — never an identity, and never a malformed-segment error.
pub proof fn lemma_missing_field_rejection(s: Seq<char>, r: Result<User, ParseError>, f: Field)
    requires
        parse_post(s, r),
        dn_pairs(s) matches Some(m) && !m.dom().contains(f.key()),
    ensures
        r matches Err(e) && e matches ParseError::MissingField(g) && !(dn_pairs(
            s,
        )->Some_0).dom().contains(g.key()),
{
}

/// Malformed-segment rejection: a distinguished name with a segment that
/// lacks `=` is reported as `MalformedSegment`, an error distinct from
/// every missing-field error.
pub proof fn lemma_malformed_segment_rejection(s: Seq<char>, r: Result<User, ParseError>)
    requires
        parse_post(s, r),
        dn_pairs(s) is None,
    ensures
        r == Result::<User, ParseError>::Err(ParseError::MalformedSegment),
        forall|f: Field| r != Result::<User, ParseError>::Err(ParseError::MissingField(f)),
{
}

/// Whether `s` can stand as an attribute key: no separator characters.
pub open spec fn plain_key(s: Seq<char>) -> bool {
    forall|i: int| 0 <= i < s.len() ==> s[i] != '/' && s[i] != '='
}

/// Whether `s` can stand as an attribute value: no segment separator.
pub open spec fn plain_value(s: Seq<char>) -> bool {
    forall|i: int| 0 <= i < s.len() ==> s[i] != '/'
}

/// The segment text `/key=value`.
pub open spec fn segment_of(key: Seq<char>, value: Seq<char>) -> Seq<char> {
    seq!['/'] + key + seq!['='] + value
}

/// A distinguished name spelling out `pairs` in order.
pub open spec fn dn_of(pairs: Seq<(Seq<char>, Seq<char>)>) -> Seq<char>
    decreases pairs.len(),
{
    if pairs.len() == 0 {
        Seq::empty()
    } else {
        dn_of(pairs.drop_last()) + segment_of(pairs.last().0, pairs.last().1)
    }
}

/// The attribute map `pairs` denotes, a later pair overriding an earlier one.
pub open spec fn pairs_map(pairs: Seq<(Seq<char>, Seq<char>)>) -> Map<Seq<char>, Seq<char>>
    decreases pairs.len(),
{
    if pairs.len() == 0 {
        Map::empty()
    } else {
        pairs_map(pairs.drop_last()).insert(pairs.last().0, pairs.last().1)
    }
}

/// Appending one well-formed segment extends the attribute map by its pair.
proof fn lemma_dn_pairs_snoc(t: Seq<char>, key: Seq<char>, value: Seq<char>)
    requires
        dn_pairs(t) matches Some(m),
        plain_key(key),
        plain_value(value),
    ensures
        dn_pairs(t + segment_of(key, value)) == Some(dn_pairs(t)->Some_0.insert(key, value)),
{
    let s = t + segment_of(key, value);
    let i = t.len() as int + 1;
    assert(s[i - 1] == '/');
    assert forall|j: int| i <= j < s.len() implies s[j] != '/' by {
        if j < i + key.len() {
            assert(s[j] == key[j - i]);
        } else if j == i + key.len() {
            assert(s[j] == '=');
        } else {
            assert(s[j] == value[j - i - key.len() - 1]);
        }
    }
    lemma_dn_pairs_last_seg(s, i);
    assert(s.take(i) =~= t + seq!['/']);
    lemma_dn_pairs_trailing_slash(t + seq!['/']);
    assert((t + seq!['/']).take(t.len() as int) =~= t);
    let seg = s.skip(i);
    assert(seg =~= key + seq!['='] + value);
    assert(seg[key.len() as int] == '=');
    assert forall|j: int| 0 <= j < key.len() implies seg[j] != '=' by {
        assert(seg[j] == key[j]);
    }
    lemma_first_eq_at_is(seg, key.len() as int);
    assert(seg.take(key.len() as int) =~= key);
    assert(seg.skip(key.len() as int + 1) =~= value);
}

/// Round trip: a distinguished name spelled out from well-formed pairs
/// parses back to exactly the attribute map those pairs denote.
pub proof fn lemma_dn_round_trip(pairs: Seq<(Seq<char>, Seq<char>)>)
    requires
        forall|i: int|
            0 <= i < pairs.len() ==> plain_key(#[trigger] pairs[i].0) && plain_value(pairs[i].1),
    ensures
        dn_pairs(dn_of(pairs)) == Some(pairs_map(pairs)),
    decreases pairs.len(),
{
    if pairs.len() == 0 {
        assert(last_slash_at(Seq::<char>::empty()) == -1);
    } else {
        lemma_dn_round_trip(pairs.drop_last());
        assert(pairs.last() == pairs[pairs.len() - 1]);
        lemma_dn_pairs_snoc(dn_of(pairs.drop_last()), pairs.last().0, pairs.last().1);
    }
}

/// Round trip at the parser: any result that meets `User::parse`'s contract
/// on a name spelled out from well-formed pairs covering the three required
/// keys is an identity carrying exactly the values those pairs denote.
pub proof fn lemma_parse_round_trip(pairs: Seq<(Seq<char>, Seq<char>)>, r: Result<User, ParseError>)
    requires
        forall|i: int|
            0 <= i < pairs.len() ==> plain_key(#[trigger] pairs[i].0) && plain_value(pairs[i].1),
        pairs_map(pairs).dom().contains(callsign_key()),
        pairs_map(pairs).dom().contains(display_name_key()),
        pairs_map(pairs).dom().contains(email_key()),
        parse_post(dn_of(pairs), r),
    ensures
        r matches Ok(u) && u.callsign@ == pairs_map(pairs)[callsign_key()] && u.display_name@
            == pairs_map(pairs)[display_name_key()] && u.email@ == pairs_map(pairs)[email_key()],
{
    lemma_dn_round_trip(pairs);
}

/// One of the three attributes an identity requires.
#[derive(Clone, Copy, Debug, PartialEq, Eq, Structural)]
pub enum Field {
    Callsign,
    DisplayName,
    Email,
}

impl Field {
    /// The key under which this attribute is looked up.
    pub open spec fn key(self) -> Seq<char> {
        match self {
            Field::Callsign => callsign_key(),
            Field::DisplayName => display_name_key(),
            Field::Email => email_key(),
        }
    }
}

/// Why a distinguished name failed to yield an identity.
#[derive(Clone, Copy, Debug, PartialEq, Eq, Structural)]
pub enum ParseError {
    /// Some non-empty segment has no `=`.
    MalformedSegment,
    /// The segments are well formed but the named attribute never occurs.
    MissingField(Field),
}

/// An authenticated member, as read from a distinguished name.
#[derive(Debug)]
pub struct User {
    pub callsign: String,
    pub display_name: String,
    pub email: String,
}

/// Character-for-character string equality.
pub fn str_eq(a: &str, b: &str) -> (r: bool)
    ensures
        r == (a@ == b@),
{
    let na = a.unicode_len();
    let nb = b.unicode_len();
    if na != nb {
        proof {
            if a@ == b@ {
                assert(a@.len() == b@.len());
            }
        }
        return false;
    }
    let mut i: usize = 0;
    while i < na
        invariant
            i <= na,
            na == a@.len(),
            na == b@.len(),
            forall|p: int| 0 <= p < i ==> a@[p] == b@[p],
        decreases na - i,
    {
        if a.get_char(i) != b.get_char(i) {
            return false;
        }
        i += 1;
    }
    proof {
        assert(a@ =~= b@);
    }
    true
}

/// What `User::parse` promises: the result is determined by the attribute
/// map of the input. A malformed segment is reported first; then the three
/// required attributes are demanded in the order callsign, display name,
/// e-mail address; otherwise the identity carries exactly the mapped values.
pub open spec fn parse_post(s: Seq<char>, r: Result<User, ParseError>) -> bool {
    match dn_pairs(s) {
        None => r == Result::<User, ParseError>::Err(ParseError::MalformedSegment),
        Some(m) => {
            if !m.dom().contains(callsign_key()) {
                r == Result::<User, ParseError>::Err(ParseError::MissingField(Field::Callsign))
            } else if !m.dom().contains(display_name_key()) {
                r == Result::<User, ParseError>::Err(ParseError::MissingField(Field::DisplayName))
            } else if !m.dom().contains(email_key()) {
                r == Result::<User, ParseError>::Err(ParseError::MissingField(Field::Email))
            } else {
                r matches Ok(u) && u.callsign@ == m[callsign_key()] && u.display_name@
                    == m[display_name_key()] && u.email@ == m[email_key()]
            }
        },
    }
}

/// Whether a distinguished name yields an identity: its segments are well
/// formed and all three required attributes occur.
pub open spec fn dn_yields_identity(s: Seq<char>) -> bool {
    dn_pairs(s) matches Some(m) && m.dom().contains(callsign_key()) && m.dom().contains(
        display_name_key(),
    ) && m.dom().contains(email_key())
}

/// Relates one of the parser's three slots to the attribute map built so far.
pub open spec fn slot_tracks(slot: Option<String>, m: Map<Seq<char>, Seq<char>>, key: Seq<char>) -> bool {
    match slot {
        None => !m.dom().contains(key),
        Some(v) => m.dom().contains(key) && v@ == m[key],
    }
}

/// The three required keys are pairwise distinct.
pub proof fn lemma_keys_distinct()
    ensures
        callsign_key() != display_name_key(),
        callsign_key() != email_key(),
        display_name_key() != email_key(),
{
    reveal_strlit("1.3.6.1.4.1.12348.1.1");
    reveal_strlit("CN");
    reveal_strlit("emailAddress");
    assert(callsign_key().len() == 21);
    assert(display_name_key().len() == 2);
    assert(email_key().len() == 12);
}

impl User {
    /// Parse a distinguished name of `/KEY=VALUE` segments. Empty segments
    /// are skipped; a non-empty segment splits on its first `=`; a later
    /// occurrence of a key overrides an earlier one. All three required
    /// attributes must occur, or the missing one is reported.
    pub fn parse(dn: &str) -> (r: Result<User, ParseError>)
        ensures
            parse_post(dn@, r),
    {
        let ghost s = dn@;
        let n = dn.unicode_len();
        let mut callsign: Option<String> = None;
        let mut display_name: Option<String> = None;
        let mut email: Option<String> = None;
        let mut i: usize = 0;
        proof {
            assert(s.take(0) =~= Seq::<char>::empty());
            assert(last_slash_at(Seq::<char>::empty()) == -1);
        }
        while i < n
            invariant
                n == s.len(),
                dn@ == s,
                i <= n,
                i < n ==> (i == 0 || s[i - 1] == '/'),
                dn_pairs(s.take(i as int)) matches Some(m) && slot_tracks(
                    callsign,
                    m,
                    callsign_key(),
                ) && slot_tracks(display_name, m, display_name_key()) && slot_tracks(
                    email,
                    m,
                    email_key(),
                ),
            decreases n - i,
        {
            let ghost m = dn_pairs(s.take(i as int))->Some_0;
            // Find the end of the current segment.
            let mut j: usize = i;
            while j < n && dn.get_char(j) != '/'
                invariant
                    dn@ == s,
                    n == s.len(),
                    i <= j <= n,
                    forall|p: int| i <= p < j ==> s[p] != '/',
                decreases n - j,
            {
                j += 1;
            }
            let ghost seg = s.subrange(i as int, j as int);
            proof {
                lemma_dn_pairs_last_seg(s.take(j as int), i as int);
                assert(s.take(j as int).take(i as int) =~= s.take(i as int));
                assert(s.take(j as int).skip(i as int) =~= seg);
            }
            if j > i {
                // Find the first `=` of the segment.
                let mut k: usize = i;
                while k < j && dn.get_char(k) != '='
                    invariant
                        dn@ == s,
                        n == s.len(),
                        i <= k <= j <= n,
                        forall|p: int| i <= p < k ==> s[p] != '=',
                    decreases j - k,
                {
                    k += 1;
                }
                if k == j {
                    proof {
                        assert forall|p: int| 0 <= p < seg.len() implies seg[p] != '=' by {
                            assert(seg[p] == s[i + p]);
                        }
                        lemma_first_eq_at_none(seg);
                        lemma_dn_pairs_prefix_none(s, j as int);
                    }
                    return Err(ParseError::MalformedSegment);
                }
                let key: &str = dn.substring_char(i, k);
                let val: String = dn.substring_char(k + 1, j).to_owned();
                proof {
                    assert(seg[k - i] == s[k as int]);
                    assert forall|p: int| 0 <= p < k - i implies seg[p] != '=' by {
                        assert(seg[p] == s[i + p]);
                    }
                    lemma_first_eq_at_is(seg, k - i);
                    assert(seg.take(k - i) =~= key@);
                    assert(seg.skip(k - i + 1) =~= val@);
                    lemma_keys_distinct();
                }
                let ghost m2 = m.insert(key@, val@);
                if str_eq(key, "1.3.6.1.4.1.12348.1.1") {
                    callsign = Some(val);
                } else if str_eq(key, "CN") {
                    display_name = Some(val);
                } else if str_eq(key, "emailAddress") {
                    email = Some(val);
                }
                proof {
                    assert(dn_pairs(s.take(j as int)) == Some(m2));
                    assert(slot_tracks(callsign, m2, callsign_key()));
                    assert(slot_tracks(display_name, m2, display_name_key()));
                    assert(slot_tracks(email, m2, email_key()));
                }
            }
            proof {
                if j < n {
                    let t = s.take(j + 1);
                    assert(t[t.len() - 1] == s[j as int]);
                    lemma_dn_pairs_trailing_slash(t);
                    assert(t.take(j as int) =~= s.take(j as int));
                }
            }
            if j < n {
                i = j + 1;
            } else {
                i = n;
            }
        }
        proof {
            assert(s.take(n as int) =~= s);
        }
        match (callsign, display_name, email) {
            (Some(c), Some(d), Some(e)) => Ok(
                User { callsign: c, display_name: d, email: e },
            ),
            (None, _, _) => Err(ParseError::MissingField(Field::Callsign)),
            (_, None, _) => Err(ParseError::MissingField(Field::DisplayName)),
            (_, _, None) => Err(ParseError::MissingField(Field::Email)),
        }
    }

    /// Parse a distinguished name, keeping only whether an identity could be
    /// built. Used where a failed parse merely means an anonymous visitor.
    pub fn from_dn(distinguished_name: &str) -> (r: Option<User>)
        ensures
            r is Some <==> dn_yields_identity(distinguished_name@),
            match r {
                Some(u) => parse_post(distinguished_name@, Ok(u)),
                None => true,
            },
    {
        match User::parse(distinguished_name) {
            Ok(u) => Some(u),
            Err(_) => None,
        }
    }
}

} // verus!
