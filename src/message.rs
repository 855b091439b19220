//! The event message carried by the queue: the identity of an RTResource
//! as three strings (name, uid, namespace), written as their UTF-8 bytes
//! separated by a NUL byte.
use vstd::prelude::*;
use vstd::string::StringSliceAdditionalSpecFns;
use vstd::utf8::{decode_utf8, encode_utf8, encode_utf8_decode_utf8, encode_utf8_valid_utf8, valid_utf8};

verus! {

pub const SEPARATOR: u8 = 0;

/// Identity of the RTResource that an event is about.
#[derive(Clone, Debug)]
pub struct QueueMessage {
    pub name: String,
    pub uid: String,
    pub namespace: String,
}

/// The pieces of `b` between separators, in order; one more than the
/// number of separators.
pub open spec fn split_fields(b: Seq<u8>) -> Seq<Seq<u8>>
    decreases b.len(),
{
    if b.len() == 0 {
        seq![Seq::<u8>::empty()]
    } else {
        let p = split_fields(b.drop_last());
        if b.last() == SEPARATOR {
            p.push(Seq::<u8>::empty())
        } else {
            p.update(p.len() - 1, p.last().push(b.last()))
        }
    }
}

pub open spec fn has_separator(b: Seq<u8>) -> bool {
    exists|i: int| 0 <= i < b.len() && b[i] == SEPARATOR
}

/// The bytes of a message with fields `name`, `uid` and `namespace`.
pub open spec fn encoding(name: Seq<char>, uid: Seq<char>, namespace: Seq<char>) -> Seq<u8> {
    encode_utf8(name) + seq![SEPARATOR] + encode_utf8(uid) + seq![SEPARATOR] + encode_utf8(
        namespace,
    )
}

/// A message can be written unambiguously when no field holds the separator.
pub open spec fn encodable(name: Seq<char>, uid: Seq<char>, namespace: Seq<char>) -> bool {
    !has_separator(encode_utf8(name)) && !has_separator(encode_utf8(uid)) && !has_separator(
        encode_utf8(namespace),
    )
}

/// The fields that `b` holds: exactly three pieces, each valid UTF-8.
pub open spec fn decoding(b: Seq<u8>) -> Option<(Seq<char>, Seq<char>, Seq<char>)> {
    let p = split_fields(b);
    if p.len() == 3 && valid_utf8(p[0]) && valid_utf8(p[1]) && valid_utf8(p[2]) {
        Some((decode_utf8(p[0]), decode_utf8(p[1]), decode_utf8(p[2])))
    } else {
        None
    }
}

proof fn lemma_split_len(b: Seq<u8>)
    ensures
        split_fields(b).len() >= 1,
    decreases b.len(),
{
    if b.len() > 0 {
        lemma_split_len(b.drop_last());
    }
}

proof fn lemma_split_plain(b: Seq<u8>)
    requires
        !has_separator(b),
    ensures
        split_fields(b) == seq![b],
    decreases b.len(),
{
    if b.len() > 0 {
        let q = b.drop_last();
        assert(!has_separator(q)) by {
            if has_separator(q) {
                let i = choose|i: int| 0 <= i < q.len() && q[i] == SEPARATOR;
                assert(b[i] == SEPARATOR);
            }
        }
        lemma_split_plain(q);
        assert(b.last() != SEPARATOR) by {
            if b.last() == SEPARATOR {
                assert(b[b.len() - 1] == SEPARATOR);
            }
        }
        assert(q.push(b.last()) =~= b);
        assert(split_fields(b) =~= seq![b]);
    } else {
        assert(b =~= Seq::<u8>::empty());
    }
}

proof fn lemma_split_concat(a: Seq<u8>, b: Seq<u8>)
    ensures
        split_fields(a + seq![SEPARATOR] + b) == split_fields(a) + split_fields(b),
    decreases b.len(),
{
    lemma_split_len(a);
    lemma_split_len(b);
    let c = a + seq![SEPARATOR] + b;
    if b.len() == 0 {
        assert(c.drop_last() =~= a);
        assert(split_fields(c) =~= split_fields(a) + split_fields(b));
    } else {
        let b0 = b.drop_last();
        lemma_split_concat(a, b0);
        lemma_split_len(b0);
        assert(c.drop_last() =~= a + seq![SEPARATOR] + b0);
        assert(c.last() == b.last());
        assert(split_fields(c) =~= split_fields(a) + split_fields(b));
    }
}

/// Decoding the bytes of an encodable message gives back its fields.
pub proof fn lemma_decode_encoding(name: Seq<char>, uid: Seq<char>, namespace: Seq<char>)
    requires
        encodable(name, uid, namespace),
    ensures
        decoding(encoding(name, uid, namespace)) == Some((name, uid, namespace)),
{
    let (a, b, c) = (encode_utf8(name), encode_utf8(uid), encode_utf8(namespace));
    lemma_split_plain(a);
    lemma_split_plain(b);
    lemma_split_plain(c);
    lemma_split_concat(b, c);
    lemma_split_concat(a, b + seq![SEPARATOR] + c);
    assert(a + seq![SEPARATOR] + b + seq![SEPARATOR] + c =~= a + seq![SEPARATOR] + (b
        + seq![SEPARATOR] + c));
    let p = split_fields(encoding(name, uid, namespace));
    assert(p =~= seq![a, b, c]);
    encode_utf8_valid_utf8(name);
    encode_utf8_valid_utf8(uid);
    encode_utf8_valid_utf8(namespace);
    encode_utf8_decode_utf8(name);
    encode_utf8_decode_utf8(uid);
    encode_utf8_decode_utf8(namespace);
}

/// Relies on `String::from_utf8`: it accepts exactly the valid UTF-8 byte
/// strings and returns the text they encode.
#[verifier::external_body]
fn text_from_utf8(bytes: Vec<u8>) -> (r: Option<String>)
    ensures
        r is Some <==> valid_utf8(bytes@),
        r matches Some(s) ==> s@ == decode_utf8(bytes@),
{
    String::from_utf8(bytes).ok()
}

/// Appends the bytes of `s` to `out`; tells whether they hold the separator.
fn push_field(out: &mut Vec<u8>, s: &String) -> (found: bool)
    ensures
        final(out)@ == old(out)@ + encode_utf8(s@),
        found == has_separator(encode_utf8(s@)),
{
    let bytes = s.as_str().as_bytes();
    let ghost b = bytes@;
    assert(b == encode_utf8(s@));
    let ghost start = out@;
    let mut found = false;
    let mut i: usize = 0;
    while i < bytes.len()
        invariant
            bytes@ == b,
            out@ == start + b.subrange(0, i as int),
            0 <= i <= b.len(),
            found == (exists|k: int| 0 <= k < i && b[k] == SEPARATOR),
        decreases b.len() - i,
    {
        if bytes[i] == SEPARATOR {
            found = true;
        }
        out.push(bytes[i]);
        assert(b.subrange(0, i + 1) =~= b.subrange(0, i as int).push(b[i as int]));
        i = i + 1;
    }
    assert(b.subrange(0, b.len() as int) =~= b);
    found
}

impl QueueMessage {
    pub open spec fn encodable_spec(&self) -> bool {
        encodable(self.name@, self.uid@, self.namespace@)
    }

    pub open spec fn encoding_spec(&self) -> Seq<u8> {
        encoding(self.name@, self.uid@, self.namespace@)
    }

    /// The message's bytes; `None` when a field holds the separator, which
    /// would make them ambiguous.
    pub fn to_bytes(&self) -> (r: Option<Vec<u8>>)
        ensures
            r is Some <==> self.encodable_spec(),
            r matches Some(b) ==> b@ == self.encoding_spec(),
    {
        let mut out: Vec<u8> = Vec::new();
        let bad_name = push_field(&mut out, &self.name);
        out.push(SEPARATOR);
        let bad_uid = push_field(&mut out, &self.uid);
        out.push(SEPARATOR);
        let bad_namespace = push_field(&mut out, &self.namespace);
        if bad_name || bad_uid || bad_namespace {
            None
        } else {
            assert(out@ =~= self.encoding_spec());
            Some(out)
        }
    }

    /// Reads a message back from its bytes; `None` unless they hold exactly
    /// three fields of valid UTF-8.
    pub fn from_bytes(bytes: &[u8]) -> (r: Option<QueueMessage>)
        ensures
            r is Some <==> decoding(bytes@) is Some,
            r matches Some(m) ==> decoding(bytes@) == Some((m.name@, m.uid@, m.namespace@)),
    {
        let ghost all = bytes@;
        let mut fields: Vec<Vec<u8>> = Vec::new();
        let mut current: Vec<u8> = Vec::new();
        let mut i: usize = 0;
        while i < bytes.len()
            invariant
                bytes@ == all,
                0 <= i <= all.len(),
                fields@.map_values(|f: Vec<u8>| f@).push(current@) == split_fields(
                    all.subrange(0, i as int),
                ),
            decreases all.len() - i,
        {
            let ghost prev = all.subrange(0, i as int);
            assert(all.subrange(0, i + 1).drop_last() =~= prev);
            let ghost before_fields = fields@.map_values(|f: Vec<u8>| f@);
            if bytes[i] == SEPARATOR {
                let done = current;
                current = Vec::new();
                fields.push(done);
                assert(fields@.map_values(|f: Vec<u8>| f@) =~= before_fields.push(done@));
            } else {
                current.push(bytes[i]);
            }
            i = i + 1;
            assert(fields@.map_values(|f: Vec<u8>| f@).push(current@) =~= split_fields(
                all.subrange(0, i as int),
            ));
        }
        assert(all.subrange(0, all.len() as int) =~= all);
        if fields.len() != 2 {
            return None;
        }
        let namespace_bytes = current;
        let uid_bytes = fields.pop().unwrap();
        let name_bytes = fields.pop().unwrap();
        let name = text_from_utf8(name_bytes);
        let uid = text_from_utf8(uid_bytes);
        let namespace = text_from_utf8(namespace_bytes);
        match (name, uid, namespace) {
            (Some(name), Some(uid), Some(namespace)) => Some(QueueMessage { name, uid, namespace }),
            _ => None,
        }
    }
}

} // verus!
