//! Strict UTF-8 validation and decoding of a byte vector.
//!
//! Validation is a verified single pass over the bytes, proved equivalent to
//! `vstd::utf8::valid_utf8`; decoding of bytes already known to be valid is
//! the one trusted call into the standard library.

use vstd::prelude::*;

verus! {

use vstd::utf8::codepoint_width_1;
use vstd::utf8::codepoint_width_2;
use vstd::utf8::codepoint_width_3;
use vstd::utf8::codepoint_width_4;
use vstd::utf8::decode_utf8;
use vstd::utf8::is_continuation_byte;
use vstd::utf8::length_of_first_scalar;
use vstd::utf8::partial_valid_partial_invalid_utf8;
use vstd::utf8::partial_valid_utf8;
use vstd::utf8::partial_valid_utf8_extend;
use vstd::utf8::valid_first_scalar;
use vstd::utf8::valid_utf8;

/// Relies on `String::from_utf8`: on bytes that form a valid UTF-8 encoding
/// it returns the string those bytes encode.
#[verifier::external_body]
fn decoded_string(bytes: Vec<u8>) -> (text: String)
    requires
        valid_utf8(bytes@),
    ensures
        text@ == decode_utf8(bytes@),
{
    match String::from_utf8(bytes) {
        Ok(text) => text,
        Err(_) => String::new(),
    }
}

/// Whether `v` is a valid UTF-8 encoding, decided in one pass over the bytes.
pub fn is_valid_utf8(v: &Vec<u8>) -> (r: bool)
    ensures
        r == valid_utf8(v@),
{
    let n: usize = v.len();
    let mut i: usize = 0;
    proof {
        assert(v@.subrange(0, 0) =~= Seq::<u8>::empty());
    }
    while i < n
        invariant
            n == v@.len(),
            i <= n,
            partial_valid_utf8(v@, i as int),
        decreases n - i,
    {
        let ghost tail = v@.subrange(i as int, n as int);
        let b0: u8 = v[i];
        proof {
            assert(tail.len() == n - i);
            assert(tail[0] == b0);
        }
        if b0 < 0x80 {
            proof {
                assert(codepoint_width_1(b0) <= 0x7f) by (bit_vector)
                    requires
                        b0 < 0x80,
                ;
                assert(valid_first_scalar(tail));
                assert(length_of_first_scalar(tail) == 1);
                partial_valid_utf8_extend(v@, i as int);
            }
            i = i + 1;
        } else if b0 < 0xc2 {
            // A stray continuation byte, or the two overlong two-byte leads.
            proof {
                if valid_first_scalar(tail) {
                    if b0 >= 0xc0 {
                        let b1: u8 = tail[1];
                        assert(codepoint_width_2(b0, b1) < 0x80) by (bit_vector)
                            requires
                                0xc0 <= b0 <= 0xc1,
                                0x80 <= b1 <= 0xbf,
                        ;
                    }
                    assert(false);
                }
                partial_valid_partial_invalid_utf8(v@, i as int);
            }
            return false;
        } else if b0 < 0xe0 {
            // Two-byte encoding: 0xc2..=0xdf then one continuation byte.
            if n - i >= 2 {
                let b1: u8 = v[i + 1];
                proof {
                    assert(tail[1] == b1);
                }
                if 0x80 <= b1 && b1 <= 0xbf {
                    proof {
                        assert(0x80 <= codepoint_width_2(b0, b1) < 0xd800) by (bit_vector)
                            requires
                                0xc2 <= b0 <= 0xdf,
                                0x80 <= b1 <= 0xbf,
                        ;
                        assert(valid_first_scalar(tail));
                        assert(length_of_first_scalar(tail) == 2);
                        partial_valid_utf8_extend(v@, i as int);
                    }
                    i = i + 2;
                } else {
                    proof {
                        assert(!valid_first_scalar(tail));
                        partial_valid_partial_invalid_utf8(v@, i as int);
                    }
                    return false;
                }
            } else {
                proof {
                    assert(!valid_first_scalar(tail));
                    partial_valid_partial_invalid_utf8(v@, i as int);
                }
                return false;
            }
        } else if b0 < 0xf0 {
            // Three-byte encoding: the first continuation byte is narrowed so
            // that overlong encodings (lead 0xe0) and the surrogate range
            // (lead 0xed) are rejected.
            if n - i >= 3 {
                let b1: u8 = v[i + 1];
                let b2: u8 = v[i + 2];
                let lo: u8 = if b0 == 0xe0 { 0xa0 } else { 0x80 };
                let hi: u8 = if b0 == 0xed { 0x9f } else { 0xbf };
                proof {
                    assert(tail[1] == b1);
                    assert(tail[2] == b2);
                }
                if lo <= b1 && b1 <= hi && 0x80 <= b2 && b2 <= 0xbf {
                    proof {
                        assert(0x800 <= codepoint_width_3(b0, b1, b2) && !(0xd800
                            <= codepoint_width_3(b0, b1, b2) <= 0xdfff)) by (bit_vector)
                            requires
                                0xe0 <= b0 <= 0xef,
                                0x80 <= b1 <= 0xbf,
                                0x80 <= b2 <= 0xbf,
                                b0 == 0xe0 ==> 0xa0 <= b1,
                                b0 == 0xed ==> b1 <= 0x9f,
                        ;
                        assert(valid_first_scalar(tail));
                        assert(length_of_first_scalar(tail) == 3);
                        partial_valid_utf8_extend(v@, i as int);
                    }
                    i = i + 3;
                } else {
                    proof {
                        if valid_first_scalar(tail) {
                            assert(is_continuation_byte(b1) && is_continuation_byte(b2));
                            if b0 == 0xe0 && b1 < 0xa0 {
                                assert(codepoint_width_3(b0, b1, b2) < 0x800) by (bit_vector)
                                    requires
                                        b0 == 0xe0,
                                        0x80 <= b1 <= 0x9f,
                                        0x80 <= b2 <= 0xbf,
                                ;
                            } else if b0 == 0xed && b1 > 0x9f {
                                assert(0xd800 <= codepoint_width_3(b0, b1, b2) <= 0xdfff)
                                    by (bit_vector)
                                    requires
                                        b0 == 0xed,
                                        0xa0 <= b1 <= 0xbf,
                                        0x80 <= b2 <= 0xbf,
                                ;
                            }
                            assert(false);
                        }
                        partial_valid_partial_invalid_utf8(v@, i as int);
                    }
                    return false;
                }
            } else {
                proof {
                    assert(!valid_first_scalar(tail));
                    partial_valid_partial_invalid_utf8(v@, i as int);
                }
                return false;
            }
        } else if b0 < 0xf5 {
            // Four-byte encoding: the first continuation byte is narrowed so
            // that overlong encodings (lead 0xf0) and scalars past 0x10ffff
            // (lead 0xf4) are rejected.
            if n - i >= 4 {
                let b1: u8 = v[i + 1];
                let b2: u8 = v[i + 2];
                let b3: u8 = v[i + 3];
                let lo: u8 = if b0 == 0xf0 { 0x90 } else { 0x80 };
                let hi: u8 = if b0 == 0xf4 { 0x8f } else { 0xbf };
                proof {
                    assert(tail[1] == b1);
                    assert(tail[2] == b2);
                    assert(tail[3] == b3);
                }
                if lo <= b1 && b1 <= hi && 0x80 <= b2 && b2 <= 0xbf && 0x80 <= b3 && b3 <= 0xbf {
                    proof {
                        assert(0x10000 <= codepoint_width_4(b0, b1, b2, b3) <= 0x10ffff)
                            by (bit_vector)
                            requires
                                0xf0 <= b0 <= 0xf4,
                                0x80 <= b1 <= 0xbf,
                                0x80 <= b2 <= 0xbf,
                                0x80 <= b3 <= 0xbf,
                                b0 == 0xf0 ==> 0x90 <= b1,
                                b0 == 0xf4 ==> b1 <= 0x8f,
                        ;
                        assert(valid_first_scalar(tail));
                        assert(length_of_first_scalar(tail) == 4);
                        partial_valid_utf8_extend(v@, i as int);
                    }
                    i = i + 4;
                } else {
                    proof {
                        if valid_first_scalar(tail) {
                            assert(is_continuation_byte(b1) && is_continuation_byte(b2)
                                && is_continuation_byte(b3));
                            if b0 == 0xf0 && b1 < 0x90 {
                                assert(codepoint_width_4(b0, b1, b2, b3) < 0x10000) by (bit_vector)
                                    requires
                                        b0 == 0xf0,
                                        0x80 <= b1 <= 0x8f,
                                        0x80 <= b2 <= 0xbf,
                                        0x80 <= b3 <= 0xbf,
                                ;
                            } else if b0 == 0xf4 && b1 > 0x8f {
                                assert(codepoint_width_4(b0, b1, b2, b3) > 0x10ffff) by (bit_vector)
                                    requires
                                        b0 == 0xf4,
                                        0x90 <= b1 <= 0xbf,
                                        0x80 <= b2 <= 0xbf,
                                        0x80 <= b3 <= 0xbf,
                                ;
                            }
                            assert(false);
                        }
                        partial_valid_partial_invalid_utf8(v@, i as int);
                    }
                    return false;
                }
            } else {
                proof {
                    assert(!valid_first_scalar(tail));
                    partial_valid_partial_invalid_utf8(v@, i as int);
                }
                return false;
            }
        } else {
            // 0xf5..=0xf7 would encode scalars past 0x10ffff; 0xf8..=0xff is
            // no leading byte at all.
            proof {
                if valid_first_scalar(tail) {
                    if b0 <= 0xf7 {
                        let b1: u8 = tail[1];
                        let b2: u8 = tail[2];
                        let b3: u8 = tail[3];
                        assert(codepoint_width_4(b0, b1, b2, b3) > 0x10ffff) by (bit_vector)
                            requires
                                0xf5 <= b0 <= 0xf7,
                                0x80 <= b1 <= 0xbf,
                                0x80 <= b2 <= 0xbf,
                                0x80 <= b3 <= 0xbf,
                        ;
                    }
                    assert(false);
                }
                partial_valid_partial_invalid_utf8(v@, i as int);
            }
            return false;
        }
    }
    proof {
        assert(v@.subrange(0, n as int) =~= v@);
    }
    true
}

/// Decodes `bytes` as strict UTF-8: the text they encode when they are a
/// valid encoding, and nothing at all when they are not.
pub fn utf8_text(bytes: Vec<u8>) -> (text: Option<String>)
    ensures
        text is Some <==> valid_utf8(bytes@),
        text matches Some(t) ==> t@ == decode_utf8(bytes@),
{
    if is_valid_utf8(&bytes) {
        Some(decoded_string(bytes))
    } else {
        None
    }
}

} // verus!
