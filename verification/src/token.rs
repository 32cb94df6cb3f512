//! The capability a node proves itself with.
use vstd::prelude::*;

verus! {

/// One hexadecimal digit, in lower case.
pub open spec fn nibble(n: u8) -> char {
    if n < 10 {
        (48 + n) as char
    } else {
        (87 + n) as char
    }
}

/// The bytes in hexadecimal, two digits each.
pub open spec fn hex(bytes: Seq<u8>) -> Seq<char>
    decreases bytes.len(),
{
    if bytes.len() == 0 {
        Seq::empty()
    } else {
        hex(bytes.drop_last()).push(nibble((bytes.last() / 16) as u8)).push(
            nibble((bytes.last() % 16) as u8),
        )
    }
}

/// A token is as long as its bytes demand, and names them: different bytes are different tokens.
pub proof fn law_different_bytes_are_different_tokens(a: Seq<u8>, b: Seq<u8>)
    ensures
        hex(a).len() == 2 * a.len(),
        hex(a) == hex(b) ==> a == b,
    decreases a.len(),
{
    lemma_hex_len(a);
    lemma_hex_len(b);
    if hex(a) == hex(b) && a.len() > 0 {
        let x = a.last();
        let y = b.last();
        let n = hex(a).len() as int;
        assert(hex(a)[n - 1] == nibble((x % 16) as u8));
        assert(hex(b)[n - 1] == nibble((y % 16) as u8));
        assert(hex(a)[n - 2] == nibble((x / 16) as u8));
        assert(hex(b)[n - 2] == nibble((y / 16) as u8));
        assert(hex(a.drop_last()) =~= hex(a).subrange(0, n - 2));
        assert(hex(b.drop_last()) =~= hex(b).subrange(0, n - 2));
        lemma_nibble((x % 16) as u8, (y % 16) as u8);
        lemma_nibble((x / 16) as u8, (y / 16) as u8);
        assert(x == y);
        law_different_bytes_are_different_tokens(a.drop_last(), b.drop_last());
        assert(a =~= a.drop_last().push(x));
        assert(b =~= b.drop_last().push(y));
    } else if hex(a) == hex(b) {
        assert(a =~= b);
    }
}

/// Two digits for every byte.
pub proof fn lemma_hex_len(a: Seq<u8>)
    ensures
        hex(a).len() == 2 * a.len(),
    decreases a.len(),
{
    if a.len() > 0 {
        lemma_hex_len(a.drop_last());
    }
}

proof fn lemma_nibble(m: u8, n: u8)
    requires
        m < 16,
        n < 16,
        nibble(m) == nibble(n),
    ensures
        m == n,
{
    assert(nibble(m) as int == if m < 10 { 48 + m } else { 87 + m });
    assert(nibble(n) as int == if n < 10 { 48 + n } else { 87 + n });
}

/// One hexadecimal digit as text.
fn nibble_text(n: u8) -> (s: &'static str)
    requires
        n < 16,
    ensures
        s@ == seq![nibble(n)],
{
    proof {
        reveal_strlit("0");
        reveal_strlit("1");
        reveal_strlit("2");
        reveal_strlit("3");
        reveal_strlit("4");
        reveal_strlit("5");
        reveal_strlit("6");
        reveal_strlit("7");
        reveal_strlit("8");
        reveal_strlit("9");
        reveal_strlit("a");
        reveal_strlit("b");
        reveal_strlit("c");
        reveal_strlit("d");
        reveal_strlit("e");
        reveal_strlit("f");
    }
    let s = match n {
        0 => "0",
        1 => "1",
        2 => "2",
        3 => "3",
        4 => "4",
        5 => "5",
        6 => "6",
        7 => "7",
        8 => "8",
        9 => "9",
        10 => "a",
        11 => "b",
        12 => "c",
        13 => "d",
        14 => "e",
        _ => "f",
    };
    assert(s@ =~= seq![nibble(n)]);
    s
}

/// A node's capability: 32 bytes of entropy in hexadecimal. Where there is no entropy the token is
/// empty, which no caller can present, rather than one that anything can guess.
pub fn mint_token(entropy: Option<[u8; 32]>) -> (t: String)
    ensures
        t@ == (match entropy {
            Some(bytes) => hex(bytes@),
            None => Seq::empty(),
        }),
{
    let bytes = match entropy {
        Some(bytes) => bytes,
        None => {
            return String::new();
        },
    };
    let mut t = String::new();
    let mut i: usize = 0;
    assert(t@ =~= hex(bytes@.take(0)));
    while i < 32
        invariant
            i <= 32,
            bytes@.len() == 32,
            t@ == hex(bytes@.take(i as int)),
        decreases 32 - i,
    {
        let b: u8 = bytes[i];
        proof {
            assert(bytes@.take(i + 1).drop_last() =~= bytes@.take(i as int));
        }
        t.append(nibble_text(b / 16));
        t.append(nibble_text(b % 16));
        assert(t@ =~= hex(bytes@.take(i + 1)));
        i = i + 1;
    }
    assert(bytes@.take(32) =~= bytes@);
    t
}

/// A token of a real one's shape that belongs to no node, minted once and kept.
pub fn decoy_token(kept: &mut Option<String>, entropy: Option<[u8; 32]>) -> (t: String)
    ensures
        *final(kept) == Some(t),
        match *old(kept) {
            Some(was) => t == was,
            None => t@ == (match entropy {
                Some(bytes) => hex(bytes@),
                None => Seq::empty(),
            }),
        },
{
    let t = match kept {
        Some(t) => t.clone(),
        None => mint_token(entropy),
    };
    *kept = Some(t.clone());
    t
}

/// Whether two tokens are the same. Where they have one length, every byte of both is read whatever
/// the earlier ones were, so the time taken says nothing about where they differ.
pub fn tokens_match(a: &str, b: &str) -> (r: bool)
    ensures
        r == (a@ == b@),
{
    let x = a.as_bytes();
    let y = b.as_bytes();
    proof {
        vstd::utf8::encode_utf8_decode_utf8(a@);
        vstd::utf8::encode_utf8_decode_utf8(b@);
    }
    if x.len() != y.len() {
        return false;
    }
    let mut diff: u8 = 0;
    let mut i: usize = 0;
    while i < x.len()
        invariant
            i <= x.len(),
            x@.len() == y@.len(),
            diff == 0 <==> (forall|j: int| 0 <= j < i ==> x@[j] == y@[j]),
        decreases x.len() - i,
    {
        let p: u8 = x[i];
        let q: u8 = y[i];
        assert((diff | (p ^ q)) == 0 <==> (diff == 0 && p == q)) by (bit_vector);
        diff = diff | (p ^ q);
        i = i + 1;
    }
    proof {
        if diff == 0 {
            assert(x@ =~= y@);
        }
    }
    diff == 0
}

/// What a digit of a token stands for: `0` to `9`, then `a` to `f`.
pub open spec fn digit_worth(c: char) -> int {
    if '0' <= c <= '9' {
        c as int - '0' as int
    } else if 'a' <= c <= 'f' {
        c as int - 'a' as int + 10
    } else {
        -1
    }
}

/// A token spells its bytes in their order, each in two digits of lower case, the upper half first.
pub proof fn law_a_token_spells_its_bytes(bytes: Seq<u8>, i: int)
    requires
        0 <= i < bytes.len(),
    ensures
        hex(bytes).len() == 2 * bytes.len(),
        0 <= digit_worth(hex(bytes)[2 * i]) < 16,
        0 <= digit_worth(hex(bytes)[2 * i + 1]) < 16,
        16 * digit_worth(hex(bytes)[2 * i]) + digit_worth(hex(bytes)[2 * i + 1]) == bytes[i],
    decreases bytes.len(),
{
    lemma_hex_len(bytes);
    lemma_hex_len(bytes.drop_last());
    if i < bytes.len() - 1 {
        law_a_token_spells_its_bytes(bytes.drop_last(), i);
        assert(hex(bytes)[2 * i] == hex(bytes.drop_last())[2 * i]);
        assert(hex(bytes)[2 * i + 1] == hex(bytes.drop_last())[2 * i + 1]);
    } else {
        let b = bytes.last();
        assert(hex(bytes)[2 * i] == nibble((b / 16) as u8));
        assert(hex(bytes)[2 * i + 1] == nibble((b % 16) as u8));
    }
}

} // verus!
