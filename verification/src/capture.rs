use vstd::prelude::*;
use crate::engine::spec_decimal;
use crate::engine::u32_to_string;

verus! {

/// A screen buffer of 4-byte XBGR pixels reduced to packed 3-byte RGB:
/// every fourth byte is dropped, the rest keep their order.
pub fn xbgr8888_to_rgb(data: &[u8]) -> (out: Vec<u8>)
    ensures
        out@.len() == (data@.len() / 4) * 3,
        forall|i: int|
            0 <= i < data@.len() / 4 ==> {
                &&& #[trigger] out@[3 * i] == data@[4 * i]
                &&& out@[3 * i + 1] == data@[4 * i + 1]
                &&& out@[3 * i + 2] == data@[4 * i + 2]
            },
{
    let len = data.len();
    let pixels = len / 4;
    proof {
        vstd::arithmetic::div_mod::lemma_fundamental_div_mod(data@.len() as int, 4);
        vstd::arithmetic::div_mod::lemma_mod_division_less_than_divisor(data@.len() as int, 4);
    }
    let mut out: Vec<u8> = Vec::new();
    let mut i: usize = 0;
    while i < pixels
        invariant
            i <= pixels,
            len == data@.len(),
            pixels == data@.len() / 4,
            4 * pixels <= len,
            out@.len() == 3 * i,
            forall|j: int|
                0 <= j < i as int ==> {
                    &&& #[trigger] out@[3 * j] == data@[4 * j]
                    &&& out@[3 * j + 1] == data@[4 * j + 1]
                    &&& out@[3 * j + 2] == data@[4 * j + 2]
                },
        decreases pixels - i,
    {
        let ghost out0 = out@;
        proof {
            assert(4 * (i as int) + 2 < data@.len());
        }
        let r = data[4 * i];
        let g = data[4 * i + 1];
        let b = data[4 * i + 2];
        out.push(r);
        out.push(g);
        out.push(b);
        proof {
            assert(out@ =~= out0 + seq![r, g, b]);
            assert(out@[3 * (i as int)] == data@[4 * (i as int)]);
            assert(out@[3 * (i as int) + 1] == data@[4 * (i as int) + 1]);
            assert(out@[3 * (i as int) + 2] == data@[4 * (i as int) + 2]);
        }
        i = i + 1;
    }
    out
}

/// Relies on `std::time::SystemTime::now`: the wall clock's milliseconds
/// since the Unix epoch, truncated into a `u32` event timestamp. A clock
/// reading depends on when it is taken, so nothing is promised of the
/// result; a clock before the epoch reads as zero rather than failing.
#[verifier::external_body]
pub fn time() -> u32 {
    std::time::SystemTime::now()
        .duration_since(std::time::UNIX_EPOCH)
        .map(|d| d.as_millis() as u32)
        .unwrap_or(0)
}

/// A click-command template with every `{x}` and `{y}` placeholder replaced
/// by the decimal coordinates, scanned left to right.
pub open spec fn spec_substituted(s: Seq<char>, x: int, y: int) -> Seq<char>
    decreases s.len(),
{
    if s.len() == 0 {
        Seq::empty()
    } else if s.len() >= 3 && s[0] == '{' && s[1] == 'x' && s[2] == '}' {
        spec_decimal(x) + spec_substituted(s.skip(3), x, y)
    } else if s.len() >= 3 && s[0] == '{' && s[1] == 'y' && s[2] == '}' {
        spec_decimal(y) + spec_substituted(s.skip(3), x, y)
    } else {
        seq![s[0]] + spec_substituted(s.skip(1), x, y)
    }
}

/// The command line that clicks at a point: the configured template with
/// its coordinate placeholders filled in.
pub fn build_click_command(template: &str, x: u32, y: u32) -> (r: String)
    ensures
        r@ == spec_substituted(template@, x as int, y as int),
{
    let n = template.unicode_len();
    let mut r = String::new();
    let mut i: usize = 0;
    proof {
        assert(template@.skip(0) =~= template@);
    }
    while i < n
        invariant
            i <= n,
            n == template@.len(),
            r@ + spec_substituted(template@.skip(i as int), x as int, y as int)
                == spec_substituted(template@, x as int, y as int),
        decreases n - i,
    {
        let ghost rest = template@.skip(i as int);
        let c0 = template.get_char(i);
        let is_x = c0 == '{' && n - i > 2 && template.get_char(i + 1) == 'x' && template.get_char(
            i + 2,
        ) == '}';
        let is_y = c0 == '{' && n - i > 2 && template.get_char(i + 1) == 'y' && template.get_char(
            i + 2,
        ) == '}';
        proof {
            assert(rest[0] == template@[i as int]);
            if rest.len() >= 3 {
                assert(rest[1] == template@[i as int + 1]);
                assert(rest[2] == template@[i as int + 2]);
                assert(rest.skip(3) =~= template@.skip(i as int + 3));
            }
            assert(rest.skip(1) =~= template@.skip(i as int + 1));
        }
        if is_x {
            let d = u32_to_string(x);
            r.append(d.as_str());
            i = i + 3;
        } else if is_y {
            let d = u32_to_string(y);
            r.append(d.as_str());
            i = i + 3;
        } else {
            let one = template.substring_char(i, i + 1);
            proof {
                assert(one@ =~= seq![template@[i as int]]);
            }
            r.append(one);
            i = i + 1;
        }
    }
    proof {
        assert(template@.skip(n as int) =~= Seq::<char>::empty());
    }
    r
}

} // verus!
