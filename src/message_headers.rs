//! The string-to-string header map of a message, and its wire form: one count
//! byte (at most 255) and that many pairs of pascal strings.
use crate::common_deserializers::{
    holds_at, lemma_parse_byte, lemma_parse_pascal_string, parse_byte, parse_pascal_string, read_byte,
    read_pascal_string, Parsed,
};
use crate::common_serializers::{
    fits_pascal, flat_map, lemma_flat_map_take, pascal_string, serialize_pascal_string,
};
use crate::my_sb_socket_error::MySbSocketError;
use vstd::prelude::*;
use vstd::utf8::*;

verus! {

/// The entries of a header map, in insertion order.
pub type HeadersModel = Seq<(Seq<char>, Seq<char>)>;

pub open spec fn keys_distinct(h: HeadersModel) -> bool {
    forall|i: int, j: int| 0 <= i < j < h.len() ==> h[i].0 != h[j].0
}

/// The last position in `h` whose key is `k`, or -1.
pub open spec fn index_of_key(h: HeadersModel, k: Seq<char>) -> int
    decreases h.len(),
{
    if h.len() == 0 {
        -1
    } else if h.last().0 == k {
        h.len() - 1
    } else {
        index_of_key(h.drop_last(), k)
    }
}

/// Map insertion: the value of an existing key is replaced in place, a new
/// key goes at the end.
pub open spec fn headers_insert(h: HeadersModel, k: Seq<char>, v: Seq<char>) -> HeadersModel {
    let i = index_of_key(h, k);
    if i >= 0 {
        h.update(i, (k, v))
    } else {
        h.push((k, v))
    }
}

pub proof fn lemma_index_of_key(h: HeadersModel, k: Seq<char>)
    ensures
        -1 <= index_of_key(h, k) < h.len(),
        index_of_key(h, k) >= 0 ==> h[index_of_key(h, k)].0 == k,
        forall|j: int| index_of_key(h, k) < j < h.len() ==> h[j].0 != k,
    decreases h.len(),
{
    if h.len() > 0 && h.last().0 != k {
        let t = h.drop_last();
        lemma_index_of_key(t, k);
        assert forall|j: int| index_of_key(h, k) < j < h.len() implies h[j].0 != k by {
            if j < h.len() - 1 {
                assert(h[j] == t[j]);
            }
        }
    }
}

/// Inserting a key that is not there yet appends the entry and keeps the
/// keys distinct.
pub proof fn lemma_insert_new_key(h: HeadersModel, k: Seq<char>, v: Seq<char>)
    requires
        keys_distinct(h),
        forall|j: int| 0 <= j < h.len() ==> h[j].0 != k,
    ensures
        headers_insert(h, k, v) == h.push((k, v)),
        keys_distinct(h.push((k, v))),
{
    lemma_index_of_key(h, k);
}

/// Insertion keeps the keys distinct.
pub proof fn lemma_insert_keeps_keys_distinct(h: HeadersModel, k: Seq<char>, v: Seq<char>)
    requires
        keys_distinct(h),
    ensures
        keys_distinct(headers_insert(h, k, v)),
{
    lemma_index_of_key(h, k);
    let r = headers_insert(h, k, v);
    assert forall|i: int, j: int| 0 <= i < j < r.len() implies r[i].0 != r[j].0 by {
        if index_of_key(h, k) < 0 {
            if j == h.len() {
                assert(h[i].0 != k);
            }
        }
    }
}

/// The wire form of one entry.
pub open spec fn header_pair_bytes() -> spec_fn((Seq<char>, Seq<char>)) -> Seq<u8> {
    |p: (Seq<char>, Seq<char>)| pascal_string(p.0) + pascal_string(p.1)
}

/// How many entries go on the wire: at most 255, the rest are dropped.
pub open spec fn headers_count(h: HeadersModel) -> nat {
    if h.len() > 255 {
        255
    } else {
        h.len()
    }
}

/// The wire form of an optional header map. No map and an empty one both
/// give the single byte 0.
pub open spec fn headers_bytes(h: Option<HeadersModel>) -> Seq<u8> {
    match h {
        None => seq![0u8],
        Some(e) => seq![headers_count(e) as u8] + flat_map(
            e.take(headers_count(e) as int),
            header_pair_bytes(),
        ),
    }
}

/// Reads `count` entries, inserting each into `acc`.
pub open spec fn parse_header_pairs(
    s: Seq<u8>,
    pos: int,
    count: nat,
    acc: HeadersModel,
) -> Parsed<HeadersModel>
    decreases count,
{
    if count == 0 {
        Ok((acc, pos))
    } else {
        match parse_pascal_string(s, pos) {
            Err(e) => Err(e),
            Ok((k, p1)) => match parse_pascal_string(s, p1) {
                Err(e) => Err(e),
                Ok((v, p2)) => parse_header_pairs(s, p2, (count - 1) as nat, headers_insert(acc, k, v)),
            },
        }
    }
}

/// A count of 0 reads as no map.
pub open spec fn parse_headers(s: Seq<u8>, pos: int) -> Parsed<Option<HeadersModel>> {
    match parse_byte(s, pos) {
        Err(e) => Err(e),
        Ok((n, p)) => if n == 0 {
            Ok((None, p))
        } else {
            match parse_header_pairs(s, p, n as nat, Seq::empty()) {
                Err(e) => Err(e),
                Ok((h, q)) => Ok((Some(h), q)),
            }
        },
    }
}

/// Every key and value of `h` goes on the wire whole.
pub open spec fn headers_fit(h: HeadersModel) -> bool {
    forall|i: int| 0 <= i < h.len() ==> fits_pascal(#[trigger] h[i].0) && fits_pascal(h[i].1)
}

/// What reading back the wire form of `h` gives: an empty map reads as no
/// map, and a map of more than 255 entries as its first 255.
pub open spec fn headers_read_back(h: Option<HeadersModel>) -> Option<HeadersModel> {
    match h {
        None => None,
        Some(e) => if e.len() == 0 {
            None
        } else {
            Some(e.take(headers_count(e) as int))
        },
    }
}

proof fn lemma_parse_header_pairs(s: Seq<u8>, pos: int, e: HeadersModel, acc: HeadersModel)
    requires
        keys_distinct(acc + e),
        headers_fit(e),
        holds_at(s, pos, flat_map(e, header_pair_bytes())),
    ensures
        parse_header_pairs(s, pos, e.len(), acc) == Ok::<(HeadersModel, int), MySbSocketError>(
            (acc + e, pos + flat_map(e, header_pair_bytes()).len()),
        ),
    decreases e.len(),
{
    let f = header_pair_bytes();
    if e.len() == 0 {
        assert(acc + e =~= acc);
    } else {
        let (k, v) = e[0];
        let pk = pascal_string(k);
        let pv = pascal_string(v);
        let rest = flat_map(e.drop_first(), f);
        let all = flat_map(e, f);
        assert(all =~= pk + pv + rest);
        assert(fits_pascal(e[0].0) && fits_pascal(e[0].1));
        assert(s.subrange(pos, pos + pk.len()) =~= pk) by {
            assert(s.subrange(pos, pos + pk.len()) =~= s.subrange(pos, pos + all.len()).subrange(
                0,
                pk.len() as int,
            ));
        }
        lemma_parse_pascal_string(s, pos, k);
        let p1 = pos + pk.len();
        assert(s.subrange(p1, p1 + pv.len()) =~= pv) by {
            assert(s.subrange(p1, p1 + pv.len()) =~= s.subrange(pos, pos + all.len()).subrange(
                pk.len() as int,
                (pk.len() + pv.len()) as int,
            ));
        }
        lemma_parse_pascal_string(s, p1, v);
        let p2 = p1 + pv.len();
        assert(s.subrange(p2, p2 + rest.len()) =~= rest) by {
            assert(s.subrange(p2, p2 + rest.len()) =~= s.subrange(pos, pos + all.len()).subrange(
                (pk.len() + pv.len()) as int,
                all.len() as int,
            ));
        }
        assert forall|j: int| 0 <= j < acc.len() implies acc[j].0 != k by {
            assert((acc + e)[j] == acc[j]);
            assert((acc + e)[acc.len() as int] == e[0]);
        }
        assert(keys_distinct(acc)) by {
            assert forall|i: int, j: int| 0 <= i < j < acc.len() implies acc[i].0 != acc[j].0 by {
                assert((acc + e)[i] == acc[i]);
                assert((acc + e)[j] == acc[j]);
            }
        }
        lemma_insert_new_key(acc, k, v);
        assert(acc.push((k, v)) + e.drop_first() =~= acc + e);
        assert(headers_fit(e.drop_first())) by {
            assert forall|i: int| 0 <= i < e.drop_first().len() implies fits_pascal(
                #[trigger] e.drop_first()[i].0,
            ) && fits_pascal(e.drop_first()[i].1) by {
                assert(e.drop_first()[i] == e[i + 1]);
            }
        }
        lemma_parse_header_pairs(s, p2, e.drop_first(), acc.push((k, v)));
    }
}

/// Reading back the wire form of a header map gives `headers_read_back` of it.
pub proof fn lemma_parse_headers(s: Seq<u8>, pos: int, h: Option<HeadersModel>)
    requires
        h matches Some(e) ==> keys_distinct(e) && headers_fit(e),
        holds_at(s, pos, headers_bytes(h)),
    ensures
        parse_headers(s, pos) == Ok::<(Option<HeadersModel>, int), MySbSocketError>(
            (headers_read_back(h), pos + headers_bytes(h).len()),
        ),
{
    let b = headers_bytes(h);
    assert(s.subrange(pos, pos + 1) =~= seq![b[0]]) by {
        assert(s.subrange(pos, pos + b.len())[0] == s[pos]);
    }
    lemma_parse_byte(s, pos, b[0]);
    match h {
        None => {},
        Some(e) => {
            let n = headers_count(e);
            let t = e.take(n as int);
            let pairs = flat_map(t, header_pair_bytes());
            if e.len() == 0 {
                assert(t =~= Seq::<(Seq<char>, Seq<char>)>::empty());
            } else {
                assert(s.subrange(pos + 1, pos + 1 + pairs.len()) =~= pairs) by {
                    assert(s.subrange(pos + 1, pos + 1 + pairs.len()) =~= s.subrange(
                        pos,
                        pos + b.len(),
                    ).subrange(1, b.len() as int));
                }
                assert(keys_distinct(Seq::empty() + t)) by {
                    assert(Seq::<(Seq<char>, Seq<char>)>::empty() + t =~= t);
                }
                assert(headers_fit(t));
                lemma_parse_header_pairs(s, pos + 1, t, Seq::empty());
                assert(Seq::<(Seq<char>, Seq<char>)>::empty() + t =~= t);
            }
        },
    }
}

/// A header map: string keys, each at most once, with string values.
#[derive(Clone, Debug)]
pub struct MessageHeaders {
    entries: Vec<(String, String)>,
}

impl View for MessageHeaders {
    type V = HeadersModel;

    closed spec fn view(&self) -> HeadersModel {
        Seq::new(self.entries@.len(), |i: int| (self.entries@[i].0@, self.entries@[i].1@))
    }
}

/// The model of an optional header map.
pub open spec fn headers_view(h: Option<MessageHeaders>) -> Option<HeadersModel> {
    match h {
        Some(m) => Some(m@),
        None => None,
    }
}

fn str_eq(a: &str, b: &str) -> (r: bool)
    ensures
        r == (a@ == b@),
{
    let x = a.as_bytes();
    let y = b.as_bytes();
    assert(x@ == encode_utf8(a@));
    assert(y@ == encode_utf8(b@));
    proof {
        encode_utf8_decode_utf8(a@);
        encode_utf8_decode_utf8(b@);
    }
    if x.len() != y.len() {
        assert(a@ == b@ ==> x@ == y@);
        return false;
    }
    let mut i: usize = 0;
    while i < x.len()
        invariant
            x@.len() == y@.len(),
            x@ == encode_utf8(a@),
            y@ == encode_utf8(b@),
            i <= x@.len(),
            forall|j: int| 0 <= j < i ==> x@[j] == y@[j],
        decreases x@.len() - i,
    {
        if x[i] != y[i] {
            assert(a@ == b@ ==> x@ == y@);
            return false;
        }
        i = i + 1;
    }
    assert(x@ =~= y@);
    true
}

impl MessageHeaders {
    /// Every key is there at most once.
    pub open spec fn wf(&self) -> bool {
        keys_distinct(self@)
    }

    pub fn new() -> (r: MessageHeaders)
        ensures
            r@ == Seq::<(Seq<char>, Seq<char>)>::empty(),
            r.wf(),
    {
        let r = MessageHeaders { entries: Vec::new() };
        assert(r@ =~= Seq::<(Seq<char>, Seq<char>)>::empty());
        r
    }

    pub fn len(&self) -> (r: usize)
        ensures
            r == self@.len(),
    {
        self.entries.len()
    }

    pub fn is_empty(&self) -> (r: bool)
        ensures
            r == (self@.len() == 0),
    {
        self.entries.len() == 0
    }

    /// The key and value of the entry at position `i`.
    pub fn entry(&self, i: usize) -> (r: (&String, &String))
        requires
            i < self@.len(),
        ensures
            r.0@ == self@[i as int].0,
            r.1@ == self@[i as int].1,
    {
        let (k, v) = &self.entries[i];
        (k, v)
    }

    fn find(&self, key: &str) -> (r: Option<usize>)
        ensures
            match r {
                Some(i) => index_of_key(self@, key@) == i && i < self@.len(),
                None => index_of_key(self@, key@) == -1,
            },
    {
        proof {
            lemma_index_of_key(self@, key@);
        }
        let mut i = self.entries.len();
        assert(self@.take(i as int) =~= self@);
        while i > 0
            invariant
                i <= self@.len(),
                self@.len() == self.entries@.len(),
                index_of_key(self@, key@) == index_of_key(self@.take(i as int), key@),
            decreases i,
        {
            let ghost t = self@.take(i as int);
            assert(t.drop_last() =~= self@.take(i - 1));
            if str_eq(self.entries[i - 1].0.as_str(), key) {
                return Some(i - 1);
            }
            i = i - 1;
        }
        None
    }

    /// Sets the value of `key`, replacing the value it had.
    pub fn insert(&mut self, key: String, value: String)
        ensures
            final(self)@ == headers_insert(old(self)@, key@, value@),
            old(self).wf() ==> final(self).wf(),
    {
        proof {
            if old(self).wf() {
                lemma_insert_keeps_keys_distinct(old(self)@, key@, value@);
            }
        }
        match self.find(key.as_str()) {
            Some(i) => {
                self.entries.set(i, (key, value));
            },
            None => {
                self.entries.push((key, value));
            },
        }
        assert(self@ =~= headers_insert(old(self)@, key@, value@));
    }

    /// The value of `key`, if the map holds it.
    pub fn get(&self, key: &str) -> (r: Option<&String>)
        ensures
            match r {
                Some(v) => index_of_key(self@, key@) >= 0 && v@ == self@[index_of_key(
                    self@,
                    key@,
                )].1,
                None => index_of_key(self@, key@) == -1,
            },
    {
        match self.find(key) {
            Some(i) => Some(&self.entries[i].1),
            None => None,
        }
    }

    /// Takes `key` out of the map and returns its value.
    pub fn remove(&mut self, key: &str) -> (r: Option<String>)
        ensures
            match r {
                Some(v) => {
                    &&& index_of_key(old(self)@, key@) >= 0
                    &&& v@ == old(self)@[index_of_key(old(self)@, key@)].1
                    &&& final(self)@ == old(self)@.remove(index_of_key(old(self)@, key@))
                },
                None => index_of_key(old(self)@, key@) == -1 && final(self)@ == old(self)@,
            },
            old(self).wf() ==> final(self).wf(),
    {
        match self.find(key) {
            Some(i) => {
                let (_, v) = self.entries.remove(i);
                assert(self@ =~= old(self)@.remove(i as int));
                assert(old(self).wf() ==> final(self).wf()) by {
                    let o = old(self)@;
                    if keys_distinct(o) {
                        assert forall|a: int, b: int|
                            0 <= a < b < o.remove(i as int).len() implies o.remove(i as int)[a].0
                            != o.remove(i as int)[b].0 by {
                            let a2 = if a < i {
                                a
                            } else {
                                a + 1
                            };
                            let b2 = if b < i {
                                b
                            } else {
                                b + 1
                            };
                            assert(o.remove(i as int)[a] == o[a2]);
                            assert(o.remove(i as int)[b] == o[b2]);
                        }
                    }
                }
                Some(v)
            },
            None => None,
        }
    }
}

/// Appends an optional header map: the count, capped at 255, then the first
/// that many entries. No map and an empty map both write the single byte 0.
pub fn serialize_message_headers(data: &mut Vec<u8>, headers: Option<&MessageHeaders>)
    ensures
        final(data)@ == old(data)@ + headers_bytes(
            match headers {
                Some(h) => Some(h@),
                None => None,
            },
        ),
{
    match headers {
        None => {
            data.push(0);
        },
        Some(h) => {
            let count: usize = if h.len() > 255 {
                255
            } else {
                h.len()
            };
            data.push(count as u8);
            let ghost start = data@;
            let mut i: usize = 0;
            while i < count
                invariant
                    count == headers_count(h@),
                    i <= count,
                    data@ == start + flat_map(h@.take(i as int), header_pair_bytes()),
                decreases count - i,
            {
                let (k, v) = h.entry(i);
                serialize_pascal_string(data, k.as_str());
                serialize_pascal_string(data, v.as_str());
                proof {
                    lemma_flat_map_take(h@, i as int, header_pair_bytes());
                }
                i = i + 1;
                assert(data@ =~= start + flat_map(h@.take(i as int), header_pair_bytes()));
            }
            assert(data@ =~= old(data)@ + headers_bytes(Some(h@)));
        },
    }
}

/// Reads an optional header map. A count of 0 gives `None`; a key that comes
/// twice keeps its last value, so the map read has distinct keys.
pub fn deserealize_message_headers(data: &[u8], pos: usize) -> (r: Result<
    (Option<MessageHeaders>, usize),
    MySbSocketError,
>)
    ensures
        match r {
            Ok((h, p)) => parse_headers(data@, pos as int) == Ok::<
                (Option<HeadersModel>, int),
                MySbSocketError,
            >((headers_view(h), p as int)),
            Err(e) => parse_headers(data@, pos as int) == Err::<
                (Option<HeadersModel>, int),
                MySbSocketError,
            >(e),
        },
        r matches Ok((Some(h), _)) ==> h.wf(),
{
    let (count, p0) = read_byte(data, pos)?;
    if count == 0 {
        return Ok((None, p0));
    }
    let mut result = MessageHeaders::new();
    let mut p = p0;
    let mut i: u8 = 0;
    while i < count
        invariant
            i <= count,
            count > 0,
            result.wf(),
            parse_byte(data@, pos as int) == Ok::<(u8, int), MySbSocketError>((count, p0 as int)),
            parse_header_pairs(data@, p0 as int, count as nat, Seq::empty()) == parse_header_pairs(
                data@,
                p as int,
                (count - i) as nat,
                result@,
            ),
        decreases count - i,
    {
        let ghost rest = (count - i) as nat;
        let (k, p1) = match read_pascal_string(data, p) {
            Ok(x) => x,
            Err(e) => {
                assert(parse_header_pairs(data@, p as int, rest, result@) == Err::<
                    (HeadersModel, int),
                    MySbSocketError,
                >(e));
                return Err(e);
            },
        };
        let (v, p2) = match read_pascal_string(data, p1) {
            Ok(x) => x,
            Err(e) => {
                assert(parse_header_pairs(data@, p as int, rest, result@) == Err::<
                    (HeadersModel, int),
                    MySbSocketError,
                >(e));
                return Err(e);
            },
        };
        result.insert(k, v);
        p = p2;
        i = i + 1;
    }
    Ok((Some(result), p))
}

} // verus!
