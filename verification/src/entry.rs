//! Entries of the key-value store, and how a request for one is answered.
use vstd::prelude::*;
use vstd::string::StrSliceExecFns;
use vstd::utf8::{decode_utf8, valid_utf8};
use crate::proposal::Transaction;

verus! {

/// A very basic entry of a key-value store.
#[derive(Clone, Debug)]
pub struct Entry {
    pub key: String,
    pub value: String,
}

/// The number of spaces in `s`.
pub open spec fn count_spaces(s: Seq<char>) -> nat
    decreases s.len(),
{
    if s.len() == 0 {
        0
    } else {
        count_spaces(s.drop_last()) + if s[s.len() - 1] == ' ' { 1nat } else { 0nat }
    }
}

/// The position of the first space in `s`, or its length when it has none.
pub open spec fn first_space(s: Seq<char>) -> int
    decreases s.len(),
{
    if s.len() == 0 {
        0
    } else if first_space(s.drop_last()) < s.len() - 1 {
        first_space(s.drop_last())
    } else if s[s.len() - 1] == ' ' {
        s.len() - 1
    } else {
        s.len() as int
    }
}

/// `first_space` is at most the length, and nothing before it is a space.
pub proof fn lemma_first_space(s: Seq<char>)
    ensures
        0 <= first_space(s) <= s.len(),
        first_space(s) < s.len() ==> s[first_space(s)] == ' ',
        forall|j: int| 0 <= j < first_space(s) ==> s[j] != ' ',
    decreases s.len(),
{
    if s.len() > 0 {
        lemma_first_space(s.drop_last());
        assert forall|j: int| 0 <= j < s.len() - 1 implies s.drop_last()[j] == s[j] by {}
    }
}

/// A text with a space has its first space before its end; spaces never outnumber characters.
pub proof fn lemma_count_spaces(s: Seq<char>)
    ensures
        count_spaces(s) <= s.len(),
        count_spaces(s) > 0 ==> first_space(s) < s.len(),
    decreases s.len(),
{
    if s.len() > 0 {
        lemma_count_spaces(s.drop_last());
        lemma_first_space(s.drop_last());
    }
}

/// Spaces of a concatenation are those of its two parts.
proof fn lemma_count_spaces_concat(a: Seq<char>, b: Seq<char>)
    ensures
        count_spaces(a + b) == count_spaces(a) + count_spaces(b),
    decreases b.len(),
{
    if b.len() == 0 {
        assert(a + b =~= a);
    } else {
        assert((a + b).drop_last() =~= a + b.drop_last());
        lemma_count_spaces_concat(a, b.drop_last());
    }
}

/// A text without spaces has its first space at its end.
proof fn lemma_first_space_of_spaceless(s: Seq<char>)
    requires
        count_spaces(s) == 0,
    ensures
        first_space(s) == s.len(),
    decreases s.len(),
{
    if s.len() > 0 {
        lemma_first_space_of_spaceless(s.drop_last());
    }
}

/// Appending to a text whose first space is before its end keeps that first space.
proof fn lemma_first_space_extend(a: Seq<char>, b: Seq<char>)
    requires
        first_space(a) < a.len(),
    ensures
        first_space(a + b) == first_space(a),
    decreases b.len(),
{
    if b.len() == 0 {
        assert(a + b =~= a);
    } else {
        assert((a + b).drop_last() =~= a + b.drop_last());
        lemma_first_space_extend(a, b.drop_last());
    }
}

/// The text `key value`, for a key and a value without spaces, parses back into that
/// key and that value.
pub proof fn lemma_entry_text_round_trip(key: Seq<char>, value: Seq<char>)
    requires
        count_spaces(key) == 0,
        count_spaces(value) == 0,
    ensures
        ({
            let text = key + seq![' '] + value;
            &&& count_spaces(text) == 1
            &&& text.take(first_space(text)) == key
            &&& text.skip(first_space(text) + 1) == value
        }),
{
    let head = key + seq![' '];
    let text = head + value;
    lemma_count_spaces_concat(key, seq![' ']);
    lemma_count_spaces_concat(head, value);
    assert(seq![' '].drop_last() =~= Seq::<char>::empty());
    lemma_first_space_of_spaceless(key);
    assert(head.drop_last() =~= key);
    assert(first_space(head) == key.len());
    lemma_first_space_extend(head, value);
    assert(text.take(key.len() as int) =~= key);
    assert(text.skip(key.len() as int + 1) =~= value);
}

impl Entry {
    /// An entry with the given key and value.
    pub fn new(p0: &str, p1: &str) -> (r: Entry)
        ensures
            r.key@ == p0@,
            r.value@ == p1@,
    {
        Entry { key: p0.to_owned(), value: p1.to_owned() }
    }

    /// Parses `key value`: the text must hold exactly one space, which separates the key
    /// from the value.
    pub fn from_str(s: &str) -> (r: Result<Entry, ()>)
        ensures
            r is Ok <==> count_spaces(s@) == 1,
            r matches Ok(e) ==> e.key@ == s@.take(first_space(s@)) && e.value@ == s@.skip(first_space(s@) + 1),
    {
        let n = s.unicode_len();
        let mut i: usize = 0;
        let mut spaces: usize = 0;
        let mut pos: usize = n;
        while i < n
            invariant
                n == s@.len(),
                i <= n,
                spaces == count_spaces(s@.take(i as int)),
                spaces <= i,
                pos == if first_space(s@.take(i as int)) < i { first_space(s@.take(i as int)) } else { n as int },
            decreases n - i,
        {
            proof {
                assert(s@.take(i as int + 1).drop_last() =~= s@.take(i as int));
                lemma_count_spaces(s@.take(i as int));
            }
            if s.get_char(i) == ' ' {
                if pos == n {
                    pos = i;
                }
                spaces = spaces + 1;
            }
            i += 1;
        }
        proof {
            assert(s@.take(n as int) =~= s@);
            lemma_first_space(s@);
            lemma_count_spaces(s@);
        }
        if spaces != 1 {
            Err(())
        } else {
            let key = s.substring_char(0, pos);
            let value = s.substring_char(pos + 1, n);
            Ok(Entry::new(key, value))
        }
    }
}

/// The answer to a request to store an entry.
#[derive(Copy, Clone, Debug, PartialEq, Eq, Structural)]
pub enum Reply {
    /// The request was taken: "ok".
    Accepted,
    /// The request is not UTF-8 text: "cannot parse into string".
    NotText,
    /// The text is not an entry: "cannot parse into Entry".
    NotAnEntry,
}

/// The answer to an accepted request.
pub const OK: &'static str = "ok\n";
/// The answer to a request that is not UTF-8 text.
pub const ERR_STR: &'static str = "cannot parse into string\n";
/// The answer to a request whose text is not an entry.
pub const ERR_ENT: &'static str = "cannot parse into Entry\n";

impl Reply {
    /// The text sent back for the reply.
    pub fn as_str(&self) -> (r: &'static str)
        ensures
            *self == Reply::Accepted ==> r == OK,
            *self == Reply::NotText ==> r == ERR_STR,
            *self == Reply::NotAnEntry ==> r == ERR_ENT,
    {
        match self {
            Reply::Accepted => OK,
            Reply::NotText => ERR_STR,
            Reply::NotAnEntry => ERR_ENT,
        }
    }
}

/// Calls `std::str::from_utf8`: the text that `v` encodes in UTF-8, or `None` when it is
/// not valid UTF-8.
#[verifier::external_body]
fn str_from_utf8<'a>(v: &'a [u8]) -> (r: Option<&'a str>)
    ensures
        r is Some <==> valid_utf8(v@),
        r matches Some(s) ==> s@ == decode_utf8(v@),
{
    std::str::from_utf8(v).ok()
}

/// Answers a request carrying the bytes `buf`: text of the form `key value` is accepted
/// and becomes a transaction of the same bytes.
pub fn handle_request(buf: &[u8]) -> (r: (Reply, Option<Transaction>))
    ensures
        !valid_utf8(buf@) ==> r.0 == Reply::NotText && r.1 is None,
        valid_utf8(buf@) && count_spaces(decode_utf8(buf@)) != 1 ==> r.0 == Reply::NotAnEntry && r.1 is None,
        valid_utf8(buf@) && count_spaces(decode_utf8(buf@)) == 1 ==> r.0 == Reply::Accepted && (r.1 matches Some(t) && t@ == buf@),
{
    match str_from_utf8(buf) {
        Some(text) => {
            match Entry::from_str(text) {
                Ok(_) => {
                    let mut bytes: Vec<u8> = Vec::new();
                    crate::encoding::push_bytes(&mut bytes, buf);
                    (Reply::Accepted, Some(Transaction::new(bytes)))
                },
                Err(_) => (Reply::NotAnEntry, None),
            }
        },
        None => (Reply::NotText, None),
    }
}

} // verus!
