//! ASCII text within bytes.
use crate::path::joined;
use crate::text::{contains, occurs_at};
use vstd::prelude::*;
use vstd::utf8::{
    char_is_scalar, decode_first_scalar, decode_utf8, decode_utf8_first_scalar, encode_scalar,
    encode_utf8, is_ascii_chars, is_ascii_chars_encode_utf8, leading_byte_width_1, length_of_first_scalar, pop_first_scalar,
    take_first_scalar, valid_utf8,
};

verus! {

/// Whether `c` is ASCII.
fn is_ascii_char(c: char) -> (r: bool)
    ensures
        r == ('\0' <= c <= '\u{7f}'),
{
    let u: u32 = c as u32;
    u <= 0x7f
}

/// Whether all of `s` is ASCII.
pub fn is_ascii(s: &[char]) -> (r: bool)
    ensures
        r == is_ascii_chars(s@),
{
    let n: usize = s.len();
    let mut i: usize = 0;
    while i < n
        invariant
            i <= n,
            n == s@.len(),
            forall|j: int| 0 <= j < i ==> '\0' <= #[trigger] s@[j] <= '\u{7f}',
        decreases n - i,
    {
        if !is_ascii_char(s[i]) {
            assert(!('\0' <= s@[i as int] <= '\u{7f}'));
            return false;
        }
        i = i + 1;
    }
    true
}

/// Whether the characters of `word` stand in `bytes` from position `i` on, one to a byte.
pub open spec fn stands_at(bytes: Seq<u8>, word: Seq<char>, i: int) -> bool {
    &&& 0 <= i
    &&& i + word.len() <= bytes.len()
    &&& forall|j: int| 0 <= j < word.len() ==> bytes[i + j] as u32 == (#[trigger] word[j]) as u32
}

/// Whether the characters of `word` stand together in `bytes`, one to a byte.
pub open spec fn stands_in(bytes: Seq<u8>, word: Seq<char>) -> bool {
    exists|i: int| stands_at(bytes, word, i)
}

/// The first character that bytes encode is ASCII exactly if their first byte is; then it is that
/// byte alone. No byte of any other character is ASCII.
proof fn lemma_first_char(bytes: Seq<u8>)
    requires
        valid_utf8(bytes),
        bytes.len() > 0,
    ensures
        decode_utf8(bytes).len() > 0,
        decode_utf8(bytes).drop_first() == decode_utf8(pop_first_scalar(bytes)),
        1 <= length_of_first_scalar(bytes) <= bytes.len(),
        bytes[0] < 0x80 ==> {
            &&& length_of_first_scalar(bytes) == 1
            &&& decode_utf8(bytes)[0] as u32 == bytes[0] as u32
        },
        bytes[0] >= 0x80 ==> {
            &&& decode_utf8(bytes)[0] as u32 >= 0x80
            &&& forall|i: int| 0 <= i < length_of_first_scalar(bytes) ==> #[trigger] bytes[i] >= 0x80
        },
{
    let c = decode_first_scalar(bytes) as char;
    let u = c as u32;
    char_is_scalar(c);
    decode_utf8_first_scalar(bytes);
    let first = take_first_scalar(bytes);
    assert(first == encode_scalar(u));
    assert(first[0] == bytes[0]);
    assert(decode_utf8(bytes).drop_first() =~= decode_utf8(pop_first_scalar(bytes)));
    if u < 0x80 {
        assert(leading_byte_width_1(u) as u32 == u) by {
            assert((u & 0x7F) as u8 as u32 == u) by (bit_vector)
                requires
                    u < 0x80,
            ;
        }
        assert(first.len() == 1);
    } else {
        assert(first.len() >= 2);
    }
}

proof fn lemma_ascii_prefix(bytes: Seq<u8>, word: Seq<char>)
    requires
        valid_utf8(bytes),
        is_ascii_chars(word),
    ensures
        occurs_at(decode_utf8(bytes), word, 0) == stands_at(bytes, word, 0),
    decreases word.len(),
{
    let text = decode_utf8(bytes);
    if word.len() == 0 {
        assert(text.subrange(0, 0) =~= word);
    } else if bytes.len() > 0 {
        lemma_first_char(bytes);
        let later = word.drop_first();
        assert(is_ascii_chars(later)) by {
            assert forall|i: int| 0 <= i < later.len() implies '\0' <= #[trigger] later[i]
                <= '\u{7f}' by {
                assert(later[i] == word[i + 1]);
            }
        }
        assert(word[0] as u32 <= 0x7f);
        if occurs_at(text, word, 0) {
            assert(text.subrange(0, word.len() as int)[0] == text[0]);
        }
        if stands_at(bytes, word, 0) {
            assert(bytes[0] as u32 == word[0] as u32);
        }
        if bytes[0] < 0x80 {
            let rest = pop_first_scalar(bytes);
            lemma_ascii_prefix(rest, later);
            if occurs_at(text, word, 0) {
                assert(decode_utf8(rest).subrange(0, later.len() as int) =~= later) by {
                    assert forall|j: int| 0 <= j < later.len() implies decode_utf8(rest)[j]
                        == later[j] by {
                        assert(text.drop_first()[j] == text[j + 1]);
                        assert(text.subrange(0, word.len() as int)[j + 1] == word[j + 1]);
                    }
                }
                assert forall|j: int| 0 <= j < word.len() implies bytes[0 + j] as u32 == (
                #[trigger] word[j]) as u32 by {
                    if j > 0 {
                        assert(later[j - 1] == word[j]);
                        assert(rest[0 + (j - 1)] == bytes[j]);
                    }
                }
            }
            if stands_at(bytes, word, 0) {
                assert forall|j: int| 0 <= j < later.len() implies rest[0 + j] as u32 == (
                #[trigger] later[j]) as u32 by {
                    assert(word[j + 1] == later[j]);
                    assert(bytes[0 + (j + 1)] as u32 == word[j + 1] as u32);
                }
                assert(text.subrange(0, word.len() as int) =~= word) by {
                    assert(occurs_at(decode_utf8(rest), later, 0));
                    assert forall|j: int| 0 <= j < word.len() implies text[j] == word[j] by {
                        if j > 0 {
                            assert(text.drop_first()[j - 1] == text[j]);
                            assert(decode_utf8(rest).subrange(0, later.len() as int)[j - 1]
                                == later[j - 1]);
                        }
                    }
                }
            }
        }
    }
}

/// ASCII text is read from valid UTF-8 exactly where its bytes stand together.
pub proof fn lemma_ascii_is_read_where_it_stands(bytes: Seq<u8>, word: Seq<char>)
    requires
        valid_utf8(bytes),
        is_ascii_chars(word),
        word.len() > 0,
    ensures
        contains(decode_utf8(bytes), word) == stands_in(bytes, word),
    decreases bytes.len(),
{
    let text = decode_utf8(bytes);
    if bytes.len() > 0 {
        lemma_first_char(bytes);
        lemma_ascii_prefix(bytes, word);
        let n = length_of_first_scalar(bytes);
        let rest = pop_first_scalar(bytes);
        lemma_ascii_is_read_where_it_stands(rest, word);
        if contains(text, word) {
            let k = choose|k: int| occurs_at(text, word, k);
            if k > 0 {
                assert(decode_utf8(rest).subrange(k - 1, k - 1 + word.len()) =~= text.subrange(
                    k,
                    k + word.len(),
                ));
                assert(occurs_at(decode_utf8(rest), word, k - 1));
                let i = choose|i: int| stands_at(rest, word, i);
                assert forall|j: int| 0 <= j < word.len() implies bytes[i + n + j] as u32 == (
                #[trigger] word[j]) as u32 by {
                    assert(rest[i + j] == bytes[i + n + j]);
                }
                assert(stands_at(bytes, word, i + n));
            }
        }
        if stands_in(bytes, word) {
            let i = choose|i: int| stands_at(bytes, word, i);
            assert(bytes[i] as u32 == word[0] as u32);
            assert(word[0] as u32 <= 0x7f);
            if i >= n {
                assert forall|j: int| 0 <= j < word.len() implies rest[i - n + j] as u32 == (
                #[trigger] word[j]) as u32 by {
                    assert(rest[i - n + j] == bytes[i + j]);
                }
                assert(stands_at(rest, word, i - n));
                let k = choose|k: int| occurs_at(decode_utf8(rest), word, k);
                assert(decode_utf8(rest).subrange(k, k + word.len()) =~= text.subrange(
                    k + 1,
                    k + 1 + word.len(),
                ));
                assert(occurs_at(text, word, k + 1));
            } else {
                assert(i == 0);
            }
        }
    }
}

/// What stands in bytes still stands there with more bytes around them.
pub proof fn lemma_stands_in_more(a: Seq<u8>, bytes: Seq<u8>, c: Seq<u8>, word: Seq<char>)
    requires
        stands_in(bytes, word),
    ensures
        stands_in(a + bytes + c, word),
{
    let i = choose|i: int| stands_at(bytes, word, i);
    let all = a + bytes + c;
    let n = a.len() as int;
    assert forall|j: int| 0 <= j < word.len() implies all[n + i + j] as u32 == (
    #[trigger] word[j]) as u32 by {
        assert(all[n + i + j] == bytes[i + j]);
    }
    assert(stands_at(all, word, n + i));
}

/// A relative ASCII name joined to a directory that does not end with a slash: the directory, a
/// slash and the name.
pub proof fn lemma_below(dir: Seq<u8>, name: Seq<char>, below: Seq<char>)
    requires
        dir.len() > 0,
        dir.last() != 47,
        is_ascii_chars(name),
        name.len() > 0,
        name[0] != '/',
        below =~= seq!['/'] + name,
    ensures
        joined(dir, encode_utf8(name)) == dir + encode_utf8(below),
        joined(dir, encode_utf8(name)) == dir.push(47u8) + encode_utf8(name),
{
    assert(is_ascii_chars(below)) by {
        assert forall|i: int| 0 <= i < below.len() implies '\0' <= #[trigger] below[i]
            <= '\u{7f}' by {
            if i > 0 {
                assert(below[i] == name[i - 1]);
            }
        }
    }
    is_ascii_chars_encode_utf8(name);
    is_ascii_chars_encode_utf8(below);
    assert(encode_utf8(name)[0] == name[0] as u8);
    assert(encode_utf8(name)[0] != 47) by {
        let u = name[0] as u32;
        assert('\0' <= name[0] <= '\u{7f}');
        assert(u != 47);
    }
    assert(encode_utf8(below) =~= seq![47u8] + encode_utf8(name)) by {
        assert(encode_utf8(below)[0] == '/' as u8);
        assert forall|i: int| 0 <= i < name.len() implies encode_utf8(below)[i + 1] == encode_utf8(
            name,
        )[i] by {
            assert(below[i + 1] == name[i]);
        }
    }
    assert(dir + seq![47u8] + encode_utf8(name) =~= dir + encode_utf8(below));
    assert(dir + seq![47u8] + encode_utf8(name) =~= dir.push(47u8) + encode_utf8(name));
}

} // verus!
