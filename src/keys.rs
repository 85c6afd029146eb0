use vstd::prelude::*;
use vstd::std_specs::iter::IteratorSpec;
use vstd::utf8::encode_utf8;

verus! {

broadcast use {vstd::string::axiom_spec_iter, vstd::string::next_postcondition};

/// Whether `c` may not appear in a KV item key.
pub open spec fn forbidden_key_char(c: char) -> bool {
    c == '\r' || c == '\n' || c == '[' || c == ']' || c == '*' || c == '?' || c == '#'
}

/// The prefix that KV item keys may not start with.
pub open spec fn reserved_key_prefix() -> Seq<char> {
    seq!['.', 'w', 'e', 'l', 'l', '-', 'k', 'n', 'o', 'w', 'n', '/', 'a', 'c', 'm', 'e', '-', 'c', 'h', 'a', 'l', 'l', 'e', 'n', 'g', 'e']
}

/// Whether the execution engine can hold `k` as a KV item key: 1 to 1024
/// bytes of UTF-8, none of CR, LF, `[`, `]`, `*`, `?` and `#`, not starting
/// with `.well-known/acme-challenge`, and neither `.` nor `..`.
pub open spec fn valid_kv_key(k: Seq<char>) -> bool {
    let p = reserved_key_prefix();
    &&& 1 <= encode_utf8(k).len() <= 1024
    &&& forall|i: int| 0 <= i < k.len() ==> !forbidden_key_char(#[trigger] k[i])
    &&& !(k.len() >= p.len() && k.subrange(0, p.len() as int) == p)
    &&& k != seq!['.']
    &&& k != seq!['.', '.']
}

fn chars_of(s: &str) -> (r: Vec<char>)
    ensures
        r@ == s@,
{
    let mut it = s.chars();
    let mut r: Vec<char> = Vec::new();
    loop
        invariant
            r@ + IteratorSpec::remaining(&it) == s@,
            IteratorSpec::decrease(&it) is Some,
        ensures
            r@ == s@,
        decreases IteratorSpec::decrease(&it)->0,
    {
        match it.next() {
            Some(c) => {
                r.push(c);
            },
            None => {
                assert(IteratorSpec::remaining(&it).len() == 0);
                assert(r@ =~= r@ + IteratorSpec::remaining(&it));
                break;
            },
        }
    }
    r
}

/// Whether `key` is a valid KV item key.
pub fn is_valid_kv_key(key: &String) -> (r: bool)
    ensures
        r == valid_kv_key(key@),
{
    let bytes = key.as_str().as_bytes();
    if bytes.len() < 1 || bytes.len() > 1024 {
        return false;
    }
    let cs = chars_of(key.as_str());
    assert(cs@ == key@);
    let mut i: usize = 0;
    while i < cs.len()
        invariant
            i <= cs@.len(),
            cs@ == key@,
            1 <= encode_utf8(key@).len() <= 1024,
            forall|j: int| 0 <= j < i ==> !forbidden_key_char(#[trigger] cs@[j]),
        decreases cs@.len() - i,
    {
        let c = cs[i];
        if c == '\r' || c == '\n' || c == '[' || c == ']' || c == '*' || c == '?' || c == '#' {
            assert(forbidden_key_char(cs@[i as int]));
            return false;
        }
        i = i + 1;
    }
    if cs.len() == 1 && cs[0] == '.' {
        assert(cs@ =~= seq!['.']);
        return false;
    }
    if cs.len() == 2 && cs[0] == '.' && cs[1] == '.' {
        assert(cs@ =~= seq!['.', '.']);
        return false;
    }
    assert(cs@ != seq!['.']);
    assert(cs@ != seq!['.', '.']);
    let prefix: Vec<char> = vec![
        '.', 'w', 'e', 'l', 'l', '-', 'k', 'n', 'o', 'w', 'n', '/', 'a', 'c', 'm', 'e', '-', 'c', 'h', 'a', 'l', 'l', 'e', 'n', 'g', 'e',
    ];
    assert(prefix@ =~= reserved_key_prefix());
    if cs.len() < prefix.len() {
        return true;
    }
    let mut j: usize = 0;
    while j < prefix.len()
        invariant
            prefix@ == reserved_key_prefix(),
            prefix@.len() <= cs@.len(),
            cs@ == key@,
            1 <= encode_utf8(key@).len() <= 1024,
            forall|m: int| 0 <= m < cs@.len() ==> !forbidden_key_char(#[trigger] cs@[m]),
            cs@ != seq!['.'],
            cs@ != seq!['.', '.'],
            j <= prefix@.len(),
            forall|m: int| 0 <= m < j ==> cs@[m] == prefix@[m],
        decreases prefix@.len() - j,
    {
        if cs[j] != prefix[j] {
            assert(cs@.subrange(0, prefix@.len() as int)[j as int] != prefix@[j as int]);
            return true;
        }
        j = j + 1;
    }
    assert(cs@.subrange(0, prefix@.len() as int) =~= prefix@);
    false
}

} // verus!
