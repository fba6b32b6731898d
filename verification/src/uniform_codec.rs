//! Uniform values as the host hands them over: a numeric type code and the
//! value's bytes (little-endian 32-bit words; one byte for a bool).
use vstd::prelude::*;

use crate::uniform_queue::{add_result, set_result, u32_le_bytes, words_le_bytes, UniformQueue, UniformType, UniformValue};

verus! {

/// The numeric code of a uniform type (Bool 0, Int 1, Float 2, Vec2 3, Vec3 4,
/// Vec4 5, Mat2 6, Mat3 7, Mat4 8); a sampler has none.
pub open spec fn type_code(t: UniformType) -> Option<i32> {
    match t {
        UniformType::Bool => Some(0),
        UniformType::Int => Some(1),
        UniformType::Float => Some(2),
        UniformType::Vec2 => Some(3),
        UniformType::Vec3 => Some(4),
        UniformType::Vec4 => Some(5),
        UniformType::Mat2 => Some(6),
        UniformType::Mat3 => Some(7),
        UniformType::Mat4 => Some(8),
        UniformType::Sampler2D => None,
    }
}

/// Number of bytes a value of type code `code` takes; `None` for an unknown code.
pub open spec fn code_byte_len(code: i32) -> Option<nat> {
    if code == 0 {
        Some(1)
    } else if code == 1 || code == 2 {
        Some(4)
    } else if code == 3 {
        Some(8)
    } else if code == 4 {
        Some(12)
    } else if code == 5 || code == 6 {
        Some(16)
    } else if code == 7 {
        Some(36)
    } else if code == 8 {
        Some(64)
    } else {
        None
    }
}

/// The little-endian 32-bit word at word index `k` of `b`.
pub open spec fn le_word(b: Seq<u8>, k: int) -> u32 {
    (b[4 * k] + 256 * b[4 * k + 1] + 65536 * b[4 * k + 2] + 16777216 * b[4 * k + 3]) as u32
}

/// The first `n` little-endian words of `b`.
pub open spec fn le_words(b: Seq<u8>, n: nat) -> Seq<u32> {
    Seq::new(n, |k: int| le_word(b, k))
}

/// The two's-complement integer whose bits are `w`.
pub open spec fn i32_of_bits(w: u32) -> int {
    if w < 0x8000_0000 {
        w as int
    } else {
        w - 0x1_0000_0000
    }
}

/// `r` is how the bytes `b` decode as a value of type code `code`: nothing
/// for an unknown code or too few bytes; otherwise a bool from the first
/// byte (non-zero is true), or the first little-endian words.
pub open spec fn decodes_to(code: i32, b: Seq<u8>, r: Option<UniformValue>) -> bool {
    match code_byte_len(code) {
        None => r is None,
        Some(n) => if b.len() < n {
            r is None
        } else if code == 0 {
            r == Some(UniformValue::Bool(b[0] != 0))
        } else if code == 1 {
            r matches Some(UniformValue::Int(x)) && x == i32_of_bits(le_word(b, 0))
        } else if code == 2 {
            r == Some(UniformValue::Float(le_word(b, 0)))
        } else if code == 3 {
            r matches Some(UniformValue::Vec2(a)) && a@ == le_words(b, 2)
        } else if code == 4 {
            r matches Some(UniformValue::Vec3(a)) && a@ == le_words(b, 3)
        } else if code == 5 {
            r matches Some(UniformValue::Vec4(a)) && a@ == le_words(b, 4)
        } else if code == 6 {
            r matches Some(UniformValue::Mat2(a)) && a@ == le_words(b, 4)
        } else if code == 7 {
            r matches Some(UniformValue::Mat3(a)) && a@ == le_words(b, 9)
        } else {
            r matches Some(UniformValue::Mat4(a)) && a@ == le_words(b, 16)
        },
    }
}

/// The numeric code of a uniform type; `None` for Sampler2D.
pub fn uniform_type_code(t: UniformType) -> (code: Option<i32>)
    ensures
        code == type_code(t),
{
    match t {
        UniformType::Bool => Some(0),
        UniformType::Int => Some(1),
        UniformType::Float => Some(2),
        UniformType::Vec2 => Some(3),
        UniformType::Vec3 => Some(4),
        UniformType::Vec4 => Some(5),
        UniformType::Mat2 => Some(6),
        UniformType::Mat3 => Some(7),
        UniformType::Mat4 => Some(8),
        UniformType::Sampler2D => None,
    }
}

/// Number of bytes a value of type code `code` takes; `None` for an unknown code.
pub fn uniform_byte_len(code: i32) -> (n: Option<usize>)
    ensures
        match code_byte_len(code) {
            Some(k) => n == Some(k as usize),
            None => n is None,
        },
{
    if code == 0 {
        Some(1)
    } else if code == 1 || code == 2 {
        Some(4)
    } else if code == 3 {
        Some(8)
    } else if code == 4 {
        Some(12)
    } else if code == 5 || code == 6 {
        Some(16)
    } else if code == 7 {
        Some(36)
    } else if code == 8 {
        Some(64)
    } else {
        None
    }
}

/// The little-endian words 0..n of `b`.
fn read_words(b: &[u8], n: usize) -> (w: Vec<u32>)
    requires
        b@.len() >= 4 * n,
    ensures
        w@ == le_words(b@, n as nat),
{
    let blen = b.len();
    let mut w: Vec<u32> = Vec::new();
    let mut k: usize = 0;
    while k < n
        invariant
            blen == b@.len(),
            k <= n,
            b@.len() >= 4 * n,
            w@ == le_words(b@, k as nat),
        decreases n - k,
    {
        let i = 4 * k;
        let x: u32 = b[i] as u32 + 256 * (b[i + 1] as u32) + 65536 * (b[i + 2] as u32) + 16777216 * (b[i + 3] as u32);
        w.push(x);
        assert(w@ =~= le_words(b@, (k + 1) as nat));
        k = k + 1;
    }
    w
}

/// Decode the bytes of a value of type code `code` (see `decodes_to`).
pub fn decode_uniform(code: i32, val: &[u8]) -> (r: Option<UniformValue>)
    ensures
        decodes_to(code, val@, r),
{
    let len = match uniform_byte_len(code) {
        Some(n) => n,
        None => return None,
    };
    if val.len() < len {
        return None;
    }
    if code == 0 {
        return Some(UniformValue::Bool(val[0] != 0));
    }
    if code == 1 || code == 2 {
        let w = read_words(val, 1);
        let x = w[0];
        if code == 2 {
            return Some(UniformValue::Float(x));
        }
        let i: i32 = if x < 0x8000_0000 {
            x as i32
        } else {
            ((x - 0x8000_0000) as i32) - 0x7fff_ffff - 1
        };
        return Some(UniformValue::Int(i));
    }
    if code == 3 {
        let w = read_words(val, 2);
        let a = [w[0], w[1]];
        assert(a@ =~= w@);
        return Some(UniformValue::Vec2(a));
    }
    if code == 4 {
        let w = read_words(val, 3);
        let a = [w[0], w[1], w[2]];
        assert(a@ =~= w@);
        return Some(UniformValue::Vec3(a));
    }
    if code == 5 || code == 6 {
        let w = read_words(val, 4);
        let a = [w[0], w[1], w[2], w[3]];
        assert(a@ =~= w@);
        if code == 5 {
            return Some(UniformValue::Vec4(a));
        }
        return Some(UniformValue::Mat2(a));
    }
    if code == 7 {
        let w = read_words(val, 9);
        let a = [w[0], w[1], w[2], w[3], w[4], w[5], w[6], w[7], w[8]];
        assert(a@ =~= w@);
        return Some(UniformValue::Mat3(a));
    }
    let w = read_words(val, 16);
    let a = [
        w[0], w[1], w[2], w[3], w[4], w[5], w[6], w[7], w[8], w[9], w[10], w[11], w[12], w[13], w[14], w[15],
    ];
    assert(a@ =~= w@);
    Some(UniformValue::Mat4(a))
}

/// Decoding never changes the requested type: whatever `decode_uniform(code,
/// b)` gives has type code `code`.
pub proof fn lemma_decode_keeps_type(code: i32, b: Seq<u8>, r: Option<UniformValue>)
    requires
        decodes_to(code, b, r),
    ensures
        r matches Some(v) ==> type_code(v.kind()) == Some(code),
{
}

/// A value given with at least the bytes its type code asks for always
/// decodes, and an unknown code never does.
pub proof fn lemma_decode_succeeds(code: i32, b: Seq<u8>, r: Option<UniformValue>)
    requires
        decodes_to(code, b, r),
    ensures
        (code_byte_len(code) matches Some(n) && b.len() >= n) <==> r is Some,
{
}

/// The number of 32-bit words a float, vector or matrix of type code `code`
/// holds (0 for other codes).
pub open spec fn code_word_count(code: i32) -> nat {
    if code == 2 {
        1
    } else if code == 3 {
        2
    } else if code == 4 {
        3
    } else if code == 5 || code == 6 {
        4
    } else if code == 7 {
        9
    } else if code == 8 {
        16
    } else {
        0
    }
}

/// The words a float, vector or matrix value holds.
pub open spec fn value_words(v: UniformValue) -> Seq<u32> {
    match v {
        UniformValue::Float(x) => seq![x],
        UniformValue::Vec2(a) => a@,
        UniformValue::Vec3(a) => a@,
        UniformValue::Vec4(a) => a@,
        UniformValue::Mat2(a) => a@,
        UniformValue::Mat3(a) => a@,
        UniformValue::Mat4(a) => a@,
        _ => Seq::empty(),
    }
}

proof fn lemma_u32_le_bytes_word(w: u32)
    ensures
        u32_le_bytes(w).len() == 4,
        le_word(u32_le_bytes(w), 0) == w,
{
    let b = u32_le_bytes(w);
    assert(b[0] == w % 256);
    assert(b[1] == (w / 256) % 256);
    assert(b[2] == (w / 65536) % 256);
    assert(b[3] == w / 16777216);
    assert((w % 256) + 256 * ((w / 256) % 256) + 65536 * ((w / 65536) % 256) + 16777216 * (w / 16777216) == w)
        by (nonlinear_arith);
}

proof fn lemma_words_le_bytes_word(ws: Seq<u32>, k: int)
    requires
        0 <= k < ws.len(),
    ensures
        words_le_bytes(ws).len() == 4 * ws.len(),
        le_word(words_le_bytes(ws), k) == ws[k],
    decreases ws.len(),
{
    crate::uniform_queue::lemma_words_le_bytes_len(ws);
    crate::uniform_queue::lemma_words_le_bytes_len(ws.drop_last());
    let pre = words_le_bytes(ws.drop_last());
    let last = u32_le_bytes(ws.last());
    let all = words_le_bytes(ws);
    assert(all == pre + last);
    if k < ws.len() - 1 {
        lemma_words_le_bytes_word(ws.drop_last(), k);
        assert(all[4 * k] == pre[4 * k]);
        assert(all[4 * k + 1] == pre[4 * k + 1]);
        assert(all[4 * k + 2] == pre[4 * k + 2]);
        assert(all[4 * k + 3] == pre[4 * k + 3]);
    } else {
        lemma_u32_le_bytes_word(ws.last());
        assert(all[4 * k] == last[0]);
        assert(all[4 * k + 1] == last[1]);
        assert(all[4 * k + 2] == last[2]);
        assert(all[4 * k + 3] == last[3]);
    }
}

/// Decoding the little-endian bytes of a float, vector or matrix gives back
/// exactly its words, in order: every word, every bit of each (round trip
/// of the byte layout the host writes).
pub proof fn law_decode_round_trip(code: i32, ws: Seq<u32>, r: Option<UniformValue>)
    requires
        2 <= code <= 8,
        ws.len() == code_word_count(code),
        decodes_to(code, words_le_bytes(ws), r),
    ensures
        r matches Some(v) && value_words(v) == ws,
{
    let b = words_le_bytes(ws);
    crate::uniform_queue::lemma_words_le_bytes_len(ws);
    assert forall|k: int| 0 <= k < ws.len() implies le_word(b, k) == ws[k] by {
        lemma_words_le_bytes_word(ws, k);
    }
    assert(le_words(b, ws.len()) =~= ws);
    if code == 2 {
        assert(ws =~= seq![le_word(b, 0)]);
    }
}

/// Decoding the little-endian bytes of an int gives back that int, negative
/// ones included (two's complement).
pub proof fn law_decode_int_round_trip(x: i32, r: Option<UniformValue>)
    requires
        decodes_to(1, u32_le_bytes(x as u32), r),
    ensures
        r == Some(UniformValue::Int(x)),
{
    lemma_u32_le_bytes_word(x as u32);
    assert((x as u32) as int == if x >= 0 { x as int } else { x as int + 0x1_0000_0000 }) by (bit_vector);
}

/// The type code of the uniform `name` holds, if it exists and has one.
pub open spec fn stored_code(m: Map<Seq<char>, UniformValue>, name: Seq<char>) -> Option<i32> {
    if m.contains_key(name) {
        type_code(m[name].kind())
    } else {
        None
    }
}

impl UniformQueue {
    /// The type code of the uniform `name`; `None` when there is no such
    /// uniform or it is a Sampler2D.
    pub fn stored_type_code(&self, name: &str) -> (code: Option<i32>)
        ensures
            code == stored_code(self@, name@),
    {
        match self.get_value(name) {
            Some(v) => uniform_type_code(v.uniform_type()),
            None => None,
        }
    }

    /// Add a uniform of type code `code` decoded from `bytes`. Returns
    /// `false`, and changes nothing, when the bytes do not decode or the
    /// name is taken.
    pub fn add_uniform_from_bytes(&mut self, name: &str, code: i32, bytes: &[u8]) -> (added: bool)
        ensures
            added == (!old(self)@.contains_key(name@) && (code_byte_len(code) matches Some(n) && bytes@.len() >= n)),
            added ==> exists|v: UniformValue| decodes_to(code, bytes@, Some(v))
                && final(self).entries() == old(self).entries().push((name@, v))
                && final(self)@ == add_result(old(self)@, name@, v),
            !added ==> final(self).entries() == old(self).entries(),
    {
        let decoded = decode_uniform(code, bytes);
        proof {
            lemma_decode_succeeds(code, bytes@, decoded);
        }
        match decoded {
            Some(v) => self.add_uniform(name, v),
            None => false,
        }
    }

    /// Overwrite the uniform `name` with a value of its own type decoded from
    /// `bytes`. Returns `false`, and changes nothing, when there is no such
    /// uniform, it is a Sampler2D, or the bytes are too few.
    pub fn set_uniform_from_bytes(&mut self, name: &str, bytes: &[u8]) -> (set: bool)
        ensures
            set == (stored_code(old(self)@, name@) matches Some(code) && (code_byte_len(code) matches Some(n)
                && bytes@.len() >= n)),
            set ==> exists|v: UniformValue| decodes_to(stored_code(old(self)@, name@)->0, bytes@, Some(v))
                && v.kind() == old(self)@[name@].kind()
                && final(self)@ == set_result(old(self)@, name@, v),
            !set ==> final(self).entries() == old(self).entries(),
    {
        let code = match self.stored_type_code(name) {
            Some(c) => c,
            None => return false,
        };
        let decoded = decode_uniform(code, bytes);
        proof {
            lemma_decode_succeeds(code, bytes@, decoded);
        }
        match decoded {
            Some(v) => {
                proof {
                    lemma_decode_keeps_type(code, bytes@, decoded);
                    lemma_code_determines_type(v.kind(), self@[name@].kind());
                }
                self.set_uniform_value(name, v)
            },
            None => false,
        }
    }
}

/// Distinct types have distinct codes.
pub proof fn lemma_code_determines_type(a: UniformType, b: UniformType)
    requires
        type_code(a) is Some,
        type_code(a) == type_code(b),
    ensures
        a == b,
{
}

} // verus!
