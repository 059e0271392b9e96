use vstd::prelude::*;
use crate::encode::EncodedSecret;
use crate::remote::RepoIdentity;
use crate::text::append_bytes;

verus! {

/// "https://api.github.com/repos/"
pub open spec fn api_repos_prefix() -> Seq<u8> {
    seq![
        104u8, 116u8, 116u8, 112u8, 115u8, 58u8, 47u8, 47u8, 97u8, 112u8, 105u8, 46u8, 103u8,
        105u8, 116u8, 104u8, 117u8, 98u8, 46u8, 99u8, 111u8, 109u8, 47u8, 114u8, 101u8, 112u8,
        111u8, 115u8, 47u8,
    ]
}

/// "/actions/secrets/"
pub open spec fn secrets_infix() -> Seq<u8> {
    seq![
        47u8, 97u8, 99u8, 116u8, 105u8, 111u8, 110u8, 115u8, 47u8, 115u8, 101u8, 99u8, 114u8,
        101u8, 116u8, 115u8, 47u8,
    ]
}

/// The secret slot a publish targets, scoped to the repository.
pub open spec fn endpoint_of(owner: Seq<u8>, name: Seq<u8>, key: Seq<u8>) -> Seq<u8> {
    api_repos_prefix() + owner + seq![47u8] + name + secrets_infix() + key
}

/// The lower-case hex digit for a value below 16.
pub open spec fn hex_digit(n: u8) -> u8 {
    if n < 10 {
        (48 + n) as u8
    } else {
        (87 + n) as u8
    }
}

/// How one byte appears inside a JSON string: quote and backslash are
/// escaped, control bytes become \u00XX, everything else stands as it is.
pub open spec fn escape_byte(b: u8) -> Seq<u8> {
    if b == 34 {
        seq![92u8, 34u8]
    } else if b == 92 {
        seq![92u8, 92u8]
    } else if b < 32 {
        seq![92u8, 117u8, 48u8, 48u8, hex_digit(b / 16), hex_digit(b % 16)]
    } else {
        seq![b]
    }
}

/// A byte string as it appears inside a JSON string literal.
pub open spec fn json_escaped(s: Seq<u8>) -> Seq<u8>
    decreases s.len(),
{
    if s.len() == 0 {
        Seq::empty()
    } else {
        escape_byte(s[0]) + json_escaped(s.skip(1))
    }
}

/// "{\"encrypted_value\":\""
pub open spec fn body_prefix() -> Seq<u8> {
    seq![
        123u8, 34u8, 101u8, 110u8, 99u8, 114u8, 121u8, 112u8, 116u8, 101u8, 100u8, 95u8, 118u8,
        97u8, 108u8, 117u8, 101u8, 34u8, 58u8, 34u8,
    ]
}

/// "\",\"key_id\":\""
pub open spec fn body_mid() -> Seq<u8> {
    seq![34u8, 44u8, 34u8, 107u8, 101u8, 121u8, 95u8, 105u8, 100u8, 34u8, 58u8, 34u8]
}

/// "\"}"
pub open spec fn body_suffix() -> Seq<u8> {
    seq![34u8, 125u8]
}

/// The JSON object a publish sends: the encoded payload and the key
/// identifier, both JSON-escaped.
pub open spec fn secret_body_of(payload: Seq<u8>, key_id: Seq<u8>) -> Seq<u8> {
    body_prefix() + json_escaped(payload) + body_mid() + json_escaped(key_id) + body_suffix()
}

fn push_hex_digit(out: &mut Vec<u8>, n: u8)
    requires
        n < 16,
    ensures
        final(out)@ == old(out)@.push(hex_digit(n)),
{
    if n < 10 {
        out.push(48 + n);
    } else {
        out.push(87 + n);
    }
}

/// Append `s`, JSON-escaped, to `out`.
fn append_json_escaped(out: &mut Vec<u8>, s: &Vec<u8>)
    ensures
        final(out)@ == old(out)@ + json_escaped(s@),
{
    let mut i: usize = 0;
    proof {
        assert(s@.skip(0) =~= s@);
    }
    while i < s.len()
        invariant
            i <= s@.len(),
            out@ + json_escaped(s@.skip(i as int)) == old(out)@ + json_escaped(s@),
        decreases s@.len() - i,
    {
        let ghost before = out@;
        let ghost tail = s@.skip(i as int);
        let b = s[i];
        if b == 34 {
            out.push(92);
            out.push(34);
        } else if b == 92 {
            out.push(92);
            out.push(92);
        } else if b < 32 {
            out.push(92);
            out.push(117);
            out.push(48);
            out.push(48);
            push_hex_digit(out, b / 16);
            push_hex_digit(out, b % 16);
        } else {
            out.push(b);
        }
        proof {
            assert(tail[0] == b);
            assert(out@ =~= before + escape_byte(b));
            assert(tail.skip(1) =~= s@.skip(i + 1));
            assert(json_escaped(tail) == escape_byte(b) + json_escaped(s@.skip(i + 1)));
            assert((before + escape_byte(b)) + json_escaped(s@.skip(i + 1)) =~= before + (
            escape_byte(b) + json_escaped(s@.skip(i + 1))));
        }
        i = i + 1;
    }
    proof {
        assert(s@.skip(i as int) =~= Seq::<u8>::empty());
        assert(json_escaped(Seq::<u8>::empty()) =~= Seq::<u8>::empty());
        assert(out@ + Seq::<u8>::empty() =~= out@);
    }
}

/// The endpoint a secret is published to, byte for byte.
pub fn secret_endpoint(repo: &RepoIdentity, key: &Vec<u8>) -> (r: Vec<u8>)
    ensures
        r@ == endpoint_of(repo.owner@, repo.name@, key@),
{
    let mut out: Vec<u8> = Vec::new();
    out.push(104);
    out.push(116);
    out.push(116);
    out.push(112);
    out.push(115);
    out.push(58);
    out.push(47);
    out.push(47);
    out.push(97);
    out.push(112);
    out.push(105);
    out.push(46);
    out.push(103);
    out.push(105);
    out.push(116);
    out.push(104);
    out.push(117);
    out.push(98);
    out.push(46);
    out.push(99);
    out.push(111);
    out.push(109);
    out.push(47);
    out.push(114);
    out.push(101);
    out.push(112);
    out.push(111);
    out.push(115);
    out.push(47);
    proof {
        assert(out@ =~= api_repos_prefix());
    }
    append_bytes(&mut out, &repo.owner);
    out.push(47);
    proof {
        assert(out@ =~= api_repos_prefix() + repo.owner@ + seq![47u8]);
    }
    append_bytes(&mut out, &repo.name);
    let ghost mark = out@;
    out.push(47);
    out.push(97);
    out.push(99);
    out.push(116);
    out.push(105);
    out.push(111);
    out.push(110);
    out.push(115);
    out.push(47);
    out.push(115);
    out.push(101);
    out.push(99);
    out.push(114);
    out.push(101);
    out.push(116);
    out.push(115);
    out.push(47);
    proof {
        assert(out@ =~= mark + secrets_infix());
    }
    append_bytes(&mut out, key);
    proof {
        assert(out@ =~= endpoint_of(repo.owner@, repo.name@, key@));
    }
    out
}

/// The JSON body a secret is published with, byte for byte.
pub fn secret_body(enc: &EncodedSecret) -> (r: Vec<u8>)
    ensures
        r@ == secret_body_of(enc.payload@, enc.key_id@),
{
    let mut out: Vec<u8> = Vec::new();
    out.push(123);
    out.push(34);
    out.push(101);
    out.push(110);
    out.push(99);
    out.push(114);
    out.push(121);
    out.push(112);
    out.push(116);
    out.push(101);
    out.push(100);
    out.push(95);
    out.push(118);
    out.push(97);
    out.push(108);
    out.push(117);
    out.push(101);
    out.push(34);
    out.push(58);
    out.push(34);
    proof {
        assert(out@ =~= body_prefix());
    }
    append_json_escaped(&mut out, &enc.payload);
    let ghost mark = out@;
    out.push(34);
    out.push(44);
    out.push(34);
    out.push(107);
    out.push(101);
    out.push(121);
    out.push(95);
    out.push(105);
    out.push(100);
    out.push(34);
    out.push(58);
    out.push(34);
    proof {
        assert(out@ =~= mark + body_mid());
    }
    append_json_escaped(&mut out, &enc.key_id);
    out.push(34);
    out.push(125);
    proof {
        assert(out@ =~= secret_body_of(enc.payload@, enc.key_id@));
    }
    out
}

/// Publishing the same encoded secret to the same repository twice sends
/// byte-identical requests: endpoint and body are functions of the repository
/// identity, the secret's name, its payload and its key identifier alone.
/// Together with the remote service's documented create-or-update semantics,
/// a repeated publish leaves the same remote state as the first.
pub proof fn lemma_publish_request_deterministic(
    owner1: Seq<u8>,
    name1: Seq<u8>,
    key1: Seq<u8>,
    payload1: Seq<u8>,
    id1: Seq<u8>,
    owner2: Seq<u8>,
    name2: Seq<u8>,
    key2: Seq<u8>,
    payload2: Seq<u8>,
    id2: Seq<u8>,
)
    requires
        owner1 == owner2,
        name1 == name2,
        key1 == key2,
        payload1 == payload2,
        id1 == id2,
    ensures
        endpoint_of(owner1, name1, key1) == endpoint_of(owner2, name2, key2),
        secret_body_of(payload1, id1) == secret_body_of(payload2, id2),
{
}

} // verus!
