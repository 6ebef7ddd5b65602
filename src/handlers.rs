use vstd::prelude::*;

use crate::cpu::{same_flags, Fault, MipsCpu};
use crate::isa::{lemma_signed, offset, signed, wrap32};
use crate::memory::{page_of, Memory};

verus! {

/// Most bytes that the print-string call reads.
pub const MAX_STRING_BYTES: usize = 500;

/// Multiplier of the random-number mixer.
pub const RNG_MULTIPLIER: u32 = 0x45d9f3b;

/// A system call that only the host can carry out: console, clock,
/// keyboard, sleeping, screen.
#[derive(Clone, Debug)]
pub enum HostRequest {
    /// Print `value` in decimal.
    PrintInt { value: i32 },
    /// Print `bytes`, decoded as UTF-8; malformed text stops the CPU.
    PrintString { bytes: Vec<u8> },
    /// Read a decimal integer into register 2.
    ReadInt,
    /// Print the character with code point `code`.
    PrintChar { code: u32 },
    /// Read one character into register 2.
    ReadChar,
    /// Put 1 in register 2 when `key`, upper-cased, is pressed, else 0.
    KeyPressed { key: u8 },
    /// Sleep `ms` milliseconds.
    Sleep { ms: u32 },
    /// Sleep until `ms` milliseconds have passed since the previous such call.
    RateLimit { ms: u32 },
    /// Put the low 32 bits of the milliseconds since the epoch in register 2.
    TimeMillis,
    /// Put the low 32 bits of the microseconds since the epoch in register 2.
    TimeMicros,
    /// Show the framebuffer.
    Present,
    /// Put the packed RGB colour of hue `h`, saturation `s`, value `v`
    /// (each out of 255) in register 2.
    HsvToRgb { h: u32, s: u32, v: u32 },
}

/// The state that the system calls keep: the random seed, the time of the
/// last rate-limited sleep and the framebuffer, one packed RGB value
/// (`r | g << 8 | b << 16`) per pixel, row by row.
pub struct ExternalHandler {
    pub last_106: u128,
    pub rand_seed: u128,
    pub screen_x: usize,
    pub screen_y: usize,
    pub image: Vec<u32>,
}

/// One round of the seed mixer.
pub open spec fn mix_round(x: u32) -> u32 {
    ((((x >> 16u32) ^ x) as int * RNG_MULTIPLIER as int) % 0x1_0000_0000) as u32
}

/// The mixed seed, halved so that it is a non-negative 32-bit integer.
pub open spec fn mixed(seed: u128) -> int {
    let x = mix_round(mix_round(seed as u32));
    (((x >> 16u32) ^ x) >> 1u32) as int
}

/// The value that the random-number call puts in register 2 for bounds
/// `lo` and `hi`: a value in `[lo, hi)` when `hi > lo`, else zero.
pub open spec fn random_value(seed: u128, lo: u32, hi: u32) -> u32 {
    let dif = signed(hi) - signed(lo);
    if dif > 0 {
        wrap32(mixed(seed) % dif + signed(lo))
    } else {
        0
    }
}

/// The packed 24-bit colour that pixel value `v` shows.
pub open spec fn rgb(v: u32) -> u32 {
    (v % 0x100_0000) as u32
}

/// `s` is the NUL-terminated string at `start`: at most 500 bytes, each
/// mapped and non-zero, ended by a zero or unmapped byte, by the limit, or
/// by the end of the address space.
pub open spec fn c_string(m: Memory, start: u32, s: Seq<u8>) -> bool {
    &&& s.len() <= MAX_STRING_BYTES
    &&& start + s.len() <= 0x1_0000_0000
    &&& forall|j: int|
        0 <= j < s.len() ==> m@.contains_key(page_of((start + j) as u32)) && #[trigger] s[j] == m.byte(
            (start + j) as u32,
        ) && s[j] != 0
    &&& s.len() == MAX_STRING_BYTES || start + s.len() == 0x1_0000_0000 || !m@.contains_key(
        page_of((start + s.len()) as u32),
    ) || m.byte((start + s.len()) as u32) == 0
}

/// For bounds `lo < hi`, read as signed, the random-number call gives a
/// value in `[lo, hi)`.
pub proof fn lemma_random_in_range(seed: u128, lo: u32, hi: u32)
    requires
        signed(lo) < signed(hi),
    ensures
        signed(lo) <= signed(random_value(seed, lo, hi)) < signed(hi),
{
    lemma_signed(lo);
    lemma_signed(hi);
    let dif = signed(hi) - signed(lo);
    let x = mixed(seed);
    assert(x >= 0);
    let v = x % dif + signed(lo);
    assert(signed(lo) <= v < signed(hi));
    lemma_signed(wrap32(v));
}

/// The upper case of ASCII letter `b`; any other byte is itself.
pub open spec fn ascii_upper(b: u8) -> u8 {
    if 97 <= b <= 122 {
        (b - 32) as u8
    } else {
        b
    }
}

fn to_upper(b: u8) -> (r: u8)
    ensures
        r == ascii_upper(b),
{
    if 97 <= b && b <= 122 {
        b - 32
    } else {
        b
    }
}

/// Whether system call `call_id` is carried out by the host.
pub open spec fn is_host_call(call_id: u32) -> bool {
    call_id == 1 || call_id == 4 || call_id == 5 || call_id == 101 || call_id == 102 || call_id
        == 104 || call_id == 105 || call_id == 106 || call_id == 107 || call_id == 130 || call_id
        == 153 || call_id == 155
}

/// The request handed to the host for a host system call other than 4,
/// with registers `reg`.
pub open spec fn host_request(call_id: u32, reg: Seq<u32>) -> HostRequest {
    if call_id == 1 {
        HostRequest::PrintInt { value: reg[4] as i32 }
    } else if call_id == 5 {
        HostRequest::ReadInt
    } else if call_id == 101 {
        HostRequest::PrintChar { code: reg[4] }
    } else if call_id == 102 {
        HostRequest::ReadChar
    } else if call_id == 104 {
        HostRequest::KeyPressed { key: ascii_upper(reg[4] as u8) }
    } else if call_id == 105 {
        HostRequest::Sleep { ms: reg[4] }
    } else if call_id == 106 {
        HostRequest::RateLimit { ms: reg[4] }
    } else if call_id == 107 {
        HostRequest::TimeMillis
    } else if call_id == 130 {
        HostRequest::TimeMicros
    } else if call_id == 153 {
        HostRequest::Present
    } else {
        HostRequest::HsvToRgb { h: reg[4], s: reg[5], v: reg[6] }
    }
}

/// The NUL-terminated string at `start`, as `c_string` describes it.
pub fn read_string(mem: &Memory, start: u32) -> (r: Vec<u8>)
    requires
        mem.wf(),
    ensures
        c_string(*mem, start, r@),
{
    let mut bytes: Vec<u8> = Vec::new();
    let mut n: usize = 0;
    let mut done = false;
    while !done && n < MAX_STRING_BYTES && (start as u64 + n as u64) < 0x1_0000_0000
        invariant
            mem.wf(),
            n <= MAX_STRING_BYTES,
            start + n <= 0x1_0000_0000,
            bytes@.len() == n,
            forall|j: int| 0 <= j < n ==> mem@.contains_key(#[trigger] page_of((start + j) as u32)),
            forall|j: int| 0 <= j < n ==> #[trigger] bytes@[j] == mem.byte((start + j) as u32),
            forall|j: int| 0 <= j < n ==> #[trigger] bytes@[j] != 0,
            done ==> !mem@.contains_key(page_of((start + n) as u32)) || mem.byte((start + n) as u32)
                == 0,
        decreases MAX_STRING_BYTES - n + if done { 0int } else { 1int },
    {
        let a = (start as u64 + n as u64) as u32;
        assert(a == (start + n) as u32);
        match mem.get_u8_o(a) {
            Some(b) => {
                if b != 0 {
                    let ghost before = bytes@;
                    bytes.push(b);
                    n += 1;
                    assert(bytes@[n - 1] == b);
                    assert(mem@.contains_key(page_of((start + (n - 1)) as u32)));
                } else {
                    done = true;
                }
            },
            None => {
                done = true;
            },
        }
    }
    bytes
}

/// `call_id` failed as a system call: `c1` is `c0` stopped with a
/// system-call error for it, id 0.
pub open spec fn syscall_failed(c0: MipsCpu, c1: MipsCpu, call_id: u32) -> bool {
    &&& (c1.fault matches Some(Fault::SystemCall { call_id: c, error_id: e, message: _ }) && c
        == call_id && e == 0)
    &&& c1 == (MipsCpu { fault: c1.fault, running: false, i_check: false, ..c0 })
}

/// System call `call_id`, made by CPU `c0` with handler state `h0`, leaves
/// `c1` and `h1` and returns `r`: the calls the library carries out change
/// the state as each clause says, the others are handed to the host with
/// the state unchanged.
pub open spec fn handles(
    h0: ExternalHandler,
    c0: MipsCpu,
    h1: ExternalHandler,
    c1: MipsCpu,
    call_id: u32,
    r: Option<HostRequest>,
) -> bool {
    &&& (is_host_call(call_id) ==> h1 == h0 && c1 == c0)
    &&& (is_host_call(call_id) && call_id != 4 ==> r == Some(host_request(call_id, c0.reg@)))
    &&& (call_id == 4 ==> (r matches Some(HostRequest::PrintString { bytes }) && c_string(
            c0.mem,
            c0.reg@[4],
            bytes@,
        )))
    &&& (!is_host_call(call_id) ==> r is None)
    &&& (call_id == 0 || call_id == 111 ==> h1 == h0 && c1 == (MipsCpu {
            running: false,
            i_check: false,
            ..c0
        }))
    &&& (call_id == 99 ==> {
            &&& c1 == (MipsCpu { reg: c1.reg, ..c0 })
            &&& c1.reg@ == c0.reg@.update(
                2,
                random_value(h0.rand_seed, c0.reg@[4], c0.reg@[5]),
            )
            &&& h1.rand_seed == if h0.rand_seed == u128::MAX {
                0
            } else {
                h0.rand_seed + 1
            }
            &&& h1.image == h0.image
            &&& h1.screen_x == h0.screen_x
            &&& h1.screen_y == h0.screen_y
            &&& h1.last_106 == h0.last_106
        })
    &&& (call_id == 150 ==> {
            let w = c0.reg@[4];
            let h = c0.reg@[5];
            if w * h <= usize::MAX {
                &&& c1 == c0
                &&& h1.screen_x == w
                &&& h1.screen_y == h
                &&& h1.image@ == Seq::new((w * h) as nat, |i: int| 0u32)
                &&& h1.rand_seed == h0.rand_seed
            } else {
                &&& h1 == h0
                &&& syscall_failed(c0, c1, call_id)
            }
        })
    &&& (call_id == 151 || call_id == 152 ==> {
            let index = if call_id == 151 {
                c0.reg@[4] + c0.reg@[5] * h0.screen_x
            } else {
                c0.reg@[4] as int
            };
            let color = if call_id == 151 {
                c0.reg@[6]
            } else {
                c0.reg@[5]
            };
            &&& h1.screen_x == h0.screen_x
            &&& h1.screen_y == h0.screen_y
            &&& h1.rand_seed == h0.rand_seed
            &&& if index < h0.image@.len() {
                &&& c1 == c0
                &&& h1.image@ == h0.image@.update(index, rgb(color))
            } else {
                &&& h1.image == h0.image
                &&& syscall_failed(c0, c1, call_id)
            }
        })
    &&& (call_id == 156 ==> {
            &&& c1 == c0
            &&& h1.image@ == Seq::new(h0.image@.len(), |i: int| rgb(c0.reg@[4]))
            &&& h1.screen_x == h0.screen_x
            &&& h1.screen_y == h0.screen_y
            &&& h1.rand_seed == h0.rand_seed
        })
    &&& (!is_host_call(call_id) && call_id != 0 && call_id != 111 && call_id != 99 && call_id != 150
            && call_id != 151 && call_id != 152 && call_id != 156 ==> {
            &&& h1 == h0
            &&& syscall_failed(c0, c1, call_id)
        })
}

/// Whether `s` is a non-empty run of ASCII decimal digits.
pub open spec fn is_digits(s: Seq<u8>) -> bool {
    s.len() > 0 && forall|i: int| 0 <= i < s.len() ==> 48 <= #[trigger] s[i] <= 57
}

/// The number that the decimal digits `s` write.
pub open spec fn digits_value(s: Seq<u8>) -> int
    decreases s.len(),
{
    if s.len() == 0 {
        0
    } else {
        digits_value(s.drop_last()) * 10 + (s.last() - 48)
    }
}

/// The register value that the read-integer call takes from the line `s`:
/// an optional sign and decimal digits, read as a signed 32-bit integer,
/// else, without a minus sign, as an unsigned one; `None` for anything else.
pub open spec fn parse_int(s: Seq<u8>) -> Option<u32> {
    let neg = s.len() > 0 && s[0] == 45;
    let body = if s.len() > 0 && (s[0] == 45 || s[0] == 43) {
        s.subrange(1, s.len() as int)
    } else {
        s
    };
    let v = if neg {
        -digits_value(body)
    } else {
        digits_value(body)
    };
    if !is_digits(body) {
        None
    } else if -0x8000_0000 <= v < 0x8000_0000 {
        Some(wrap32(v))
    } else if !neg && v < 0x1_0000_0000 {
        Some(v as u32)
    } else {
        None
    }
}

/// `parse_int` of `s`.
pub fn parse_int_line(s: &[u8]) -> (r: Option<u32>)
    ensures
        r == parse_int(s@),
{
    let len = s.len();
    let neg = len > 0 && s[0] == 45;
    let start: usize = if len > 0 && (s[0] == 45 || s[0] == 43) {
        1
    } else {
        0
    };
    let ghost body = s@.subrange(start as int, len as int);
    assert(body == if s@.len() > 0 && (s@[0] == 45 || s@[0] == 43) {
        s@.subrange(1, s@.len() as int)
    } else {
        s@
    });
    if start >= len {
        return None;
    }
    let mut i: usize = start;
    let mut value: u64 = 0;
    let mut big = false;
    while i < len
        invariant
            start <= i <= len,
            len == s@.len(),
            body == s@.subrange(start as int, len as int),
            body == if s@.len() > 0 && (s@[0] == 45 || s@[0] == 43) {
                s@.subrange(1, s@.len() as int)
            } else {
                s@
            },
            is_digits(s@.subrange(start as int, i as int)) || i == start,
            !big ==> value == digits_value(s@.subrange(start as int, i as int)),
            !big ==> value <= 0x1_0000_0000,
            big ==> digits_value(s@.subrange(start as int, i as int)) > 0x1_0000_0000,
        decreases len - i,
    {
        let c = s[i];
        if c < 48 || c > 57 {
            assert(body[(i - start) as int] == c);
            assert(!is_digits(body));
            return None;
        }
        let ghost prev = s@.subrange(start as int, i as int);
        let ghost next = s@.subrange(start as int, i + 1);
        assert(next.drop_last() == prev);
        assert(next.last() == c);
        proof {
            if big {
                assert(digits_value(next) >= digits_value(prev)) by (nonlinear_arith)
                    requires
                        digits_value(next) == digits_value(prev) * 10 + (c - 48),
                        digits_value(prev) > 0,
                        48 <= c,
                ;
            }
            assert forall|k: int| 0 <= k < next.len() implies 48 <= #[trigger] next[k] <= 57 by {
                if k < prev.len() {
                    assert(next[k] == prev[k]);
                }
            }
        }
        if !big {
            let nv: u64 = value * 10 + (c - 48) as u64;
            if nv > 0x1_0000_0000 {
                big = true;
            } else {
                value = nv;
            }
        }
        i = i + 1;
    }
    assert(s@.subrange(start as int, len as int) == body);
    if big {
        return None;
    }
    if neg {
        if value <= 0x8000_0000 {
            Some(offset(0, -(value as i64)))
        } else {
            None
        }
    } else if value < 0x8000_0000 {
        Some(offset(0, value as i64))
    } else if value < 0x1_0000_0000 {
        Some(value as u32)
    } else {
        None
    }
}

/// `s` without the line-ending bytes (`\n`, `\r`) at its end.
pub open spec fn strip_line_end(s: Seq<u8>) -> Seq<u8>
    decreases s.len(),
{
    if s.len() > 0 && (s.last() == 10 || s.last() == 13) {
        strip_line_end(s.drop_last())
    } else {
        s
    }
}

/// Completes the read-integer call of `cpu` with the line the host read:
/// register 2 takes the number it writes, as `parse_int` reads it after the
/// line ending; anything else is a system-call error.
pub fn complete_read_int(cpu: &mut MipsCpu, line: &[u8])
    requires
        old(cpu).wf(),
    ensures
        final(cpu).wf(),
        match parse_int(strip_line_end(line@)) {
            Some(v) => *final(cpu) == (MipsCpu { reg: final(cpu).reg, ..*old(cpu) })
                && final(cpu).reg@ == old(cpu).reg@.update(2, v),
            None => syscall_failed(*old(cpu), *final(cpu), 5),
        },
{
    let mut end: usize = line.len();
    assert(line@.subrange(0, end as int) == line@);
    while end > 0 && (line[end - 1] == 10 || line[end - 1] == 13)
        invariant
            end <= line@.len(),
            strip_line_end(line@.subrange(0, end as int)) == strip_line_end(line@),
        decreases end,
    {
        assert(line@.subrange(0, end as int).drop_last() == line@.subrange(0, end - 1));
        end = end - 1;
    }
    let body = &line[0..end];
    proof {
        let t = line@.subrange(0, end as int);
        assert(body@ == t);
        assert(strip_line_end(t) == t);
    }
    match parse_int_line(body) {
        Some(v) => {
            cpu.reg[2] = v;
        },
        None => {
            cpu.system_call_error(5, 0, "unable to parse integer");
        },
    }
}

impl ExternalHandler {
    pub open spec fn wf(&self) -> bool {
        &&& self.image@.len() == self.screen_x * self.screen_y
        &&& self.screen_x <= 0xFFFF_FFFF
        &&& self.screen_y <= 0xFFFF_FFFF
    }

    /// A handler whose random seed and rate-limit clock start at `time_ms`,
    /// with an empty framebuffer.
    pub fn new(time_ms: u128) -> (r: ExternalHandler)
        ensures
            r.wf(),
            r.last_106 == time_ms,
            r.rand_seed == time_ms,
            r.screen_x == 0,
            r.screen_y == 0,
    {
        ExternalHandler {
            last_106: time_ms,
            rand_seed: time_ms,
            screen_x: 0,
            screen_y: 0,
            image: Vec::new(),
        }
    }

    /// The random value for bounds `lo` and `hi` from the current seed.
    pub fn random(&self, lo: u32, hi: u32) -> (r: u32)
        ensures
            r == random_value(self.rand_seed, lo, hi),
    {
        let mut x: u32 = self.rand_seed as u32;
        x = ((x >> 16u32) ^ x).wrapping_mul(RNG_MULTIPLIER);
        x = ((x >> 16u32) ^ x).wrapping_mul(RNG_MULTIPLIER);
        x = ((x >> 16u32) ^ x) >> 1u32;
        let dif: i64 = hi as i32 as i64 - lo as i32 as i64;
        proof {
            lemma_signed(lo);
            lemma_signed(hi);
        }
        if dif > 0 {
            let m: u32 = ((x as i64) % dif) as u32;
            offset(m, lo as i32 as i64)
        } else {
            0
        }
    }

    /// How long a rate-limited sleep of `ms` milliseconds lasts at time
    /// `now`: what is left of `ms` since the previous one ended (all of it
    /// when the clock went backwards). The clock moves to the end of this
    /// sleep.
    pub fn rate_limit_delay(&mut self, now: u128, ms: u32) -> (r: u64)
        ensures
            r == if now < old(self).last_106 {
                ms as int
            } else if now - old(self).last_106 <= ms {
                ms - (now - old(self).last_106)
            } else {
                0
            },
            final(self).last_106 == if now + r <= u128::MAX {
                now + r
            } else {
                now as int
            },
            final(self).rand_seed == old(self).rand_seed,
            final(self).screen_x == old(self).screen_x,
            final(self).screen_y == old(self).screen_y,
            final(self).image == old(self).image,
    {
        let dur: u128 = if now >= self.last_106 {
            now - self.last_106
        } else {
            0
        };
        let delay: u64 = if (ms as u128) >= dur {
            (ms as u128 - dur) as u64
        } else {
            0
        };
        if now <= u128::MAX - delay as u128 {
            self.last_106 = now + delay as u128;
        } else {
            self.last_106 = now;
        }
        delay
    }

    /// Replaces the framebuffer with a black one of `w` by `h` pixels;
    /// refuses, changing nothing, where the pixel count does not fit `usize`.
    pub fn allocate_framebuffer(&mut self, w: u32, h: u32) -> (r: bool)
        requires
            old(self).wf(),
        ensures
            final(self).wf(),
            r == (w * h <= usize::MAX),
            r ==> final(self).screen_x == w && final(self).screen_y == h && final(self).image@
                == Seq::new((w * h) as nat, |i: int| 0u32),
            !r ==> *final(self) == *old(self),
            final(self).rand_seed == old(self).rand_seed,
            final(self).last_106 == old(self).last_106,
    {
        assert(w as u64 * h as u64 <= 0xFFFF_FFFE_0000_0001) by (nonlinear_arith)
            requires
                w <= 0xFFFF_FFFFu32,
                h <= 0xFFFF_FFFFu32,
        ;
        let n: u64 = w as u64 * h as u64;
        if n as u128 > usize::MAX as u128 {
            return false;
        }
        let mut image: Vec<u32> = Vec::new();
        let mut i: u64 = 0;
        while i < n
            invariant
                i <= n,
                image@ == Seq::new(i as nat, |j: int| 0u32),
            decreases n - i,
        {
            image.push(0);
            i += 1;
        }
        self.screen_x = w as usize;
        self.screen_y = h as usize;
        self.image = image;
        true
    }

    /// Sets pixel `index` to the colour packed in `color`; refuses, changing
    /// nothing, where there is no such pixel.
    pub fn set_pixel(&mut self, index: u64, color: u32) -> (r: bool)
        requires
            old(self).wf(),
        ensures
            final(self).wf(),
            r == (index < old(self).image@.len()),
            r ==> final(self).image@ == old(self).image@.update(index as int, rgb(color)),
            final(self).screen_x == old(self).screen_x,
            final(self).screen_y == old(self).screen_y,
            !r ==> final(self).image == old(self).image,
            final(self).rand_seed == old(self).rand_seed,
            final(self).last_106 == old(self).last_106,
    {
        if index < self.image.len() as u64 {
            self.image.set(index as usize, color % 0x100_0000);
            true
        } else {
            false
        }
    }

    /// Paints every pixel with the colour packed in `color`.
    pub fn fill(&mut self, color: u32)
        requires
            old(self).wf(),
        ensures
            final(self).wf(),
            final(self).image@ == Seq::new(old(self).image@.len(), |i: int| rgb(color)),
            final(self).screen_x == old(self).screen_x,
            final(self).screen_y == old(self).screen_y,
            final(self).rand_seed == old(self).rand_seed,
            final(self).last_106 == old(self).last_106,
    {
        let c = color % 0x100_0000;
        let mut i: usize = 0;
        let ghost len = self.image@.len();
        let ghost before = *self;
        while i < self.image.len()
            invariant
                c == rgb(color),
                self.screen_x == before.screen_x,
                self.screen_y == before.screen_y,
                self.rand_seed == before.rand_seed,
                self.last_106 == before.last_106,
                self.image@.len() == len,
                len == self.screen_x * self.screen_y,
                i <= len,
                forall|j: int| 0 <= j < i ==> #[trigger] self.image@[j] == rgb(color),
            decreases len - i,
        {
            self.image.set(i, c);
            i += 1;
        }
        assert(self.image@ =~= Seq::new(len, |i: int| rgb(color)));
    }

    /// Carries out system call `call_id` of `cpu` where the library can, and
    /// hands the rest to the host: 0 and 111 stop, 99 draws a random number,
    /// 150, 151, 152 and 156 work on the framebuffer; an unknown id is a
    /// system-call error.
    pub fn system_call(&mut self, cpu: &mut MipsCpu, call_id: u32) -> (r: Option<HostRequest>)
        requires
            old(self).wf(),
            old(cpu).wf(),
        ensures
            final(self).wf(),
            final(cpu).wf(),
            same_flags(*old(cpu), *final(cpu)),
            handles(*old(self), *old(cpu), *final(self), *final(cpu), call_id, r),
    {
        let reg4 = cpu.reg[4];
        let reg5 = cpu.reg[5];
        let reg6 = cpu.reg[6];
        if call_id == 0 || call_id == 111 {
            cpu.stop();
            None
        } else if call_id == 99 {
            let v = self.random(reg4, reg5);
            cpu.reg[2] = v;
            self.rand_seed = self.rand_seed.wrapping_add(1);
            None
        } else if call_id == 150 {
            if !self.allocate_framebuffer(reg4, reg5) {
                cpu.system_call_error(call_id, 0, "framebuffer too large");
            }
            None
        } else if call_id == 151 || call_id == 152 {
            let index: u64 = if call_id == 151 {
                assert(reg5 as u64 * self.screen_x as u64 <= 0xFFFF_FFFF * 0xFFFF_FFFF) by (nonlinear_arith)
                    requires
                        reg5 <= 0xFFFF_FFFFu32,
                        self.screen_x <= 0xFFFF_FFFF,
                {
                }
                reg4 as u64 + reg5 as u64 * self.screen_x as u64
            } else {
                reg4 as u64
            };
            let color = if call_id == 151 {
                reg6
            } else {
                reg5
            };
            if !self.set_pixel(index, color) {
                cpu.system_call_error(call_id, 0, "pixel out of range");
            }
            None
        } else if call_id == 156 {
            self.fill(reg4);
            None
        } else if call_id == 4 {
            Some(HostRequest::PrintString { bytes: read_string(&cpu.mem, reg4) })
        } else if call_id == 1 {
            Some(HostRequest::PrintInt { value: reg4 as i32 })
        } else if call_id == 5 {
            Some(HostRequest::ReadInt)
        } else if call_id == 101 {
            Some(HostRequest::PrintChar { code: reg4 })
        } else if call_id == 102 {
            Some(HostRequest::ReadChar)
        } else if call_id == 104 {
            Some(HostRequest::KeyPressed { key: to_upper(reg4 as u8) })
        } else if call_id == 105 {
            Some(HostRequest::Sleep { ms: reg4 })
        } else if call_id == 106 {
            Some(HostRequest::RateLimit { ms: reg4 })
        } else if call_id == 107 {
            Some(HostRequest::TimeMillis)
        } else if call_id == 130 {
            Some(HostRequest::TimeMicros)
        } else if call_id == 153 {
            Some(HostRequest::Present)
        } else if call_id == 155 {
            Some(HostRequest::HsvToRgb { h: reg4, s: reg5, v: reg6 })
        } else {
            cpu.system_call_error(call_id, 0, "invalid system call");
            None
        }
    }
}

} // verus!
