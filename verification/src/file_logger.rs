//! Bookkeeping of a logger that writes JSON lines to a ring of files:
//! which file is written, how full it is, when to move on to the next one,
//! and how the files of the ring are named.

use vstd::prelude::*;
use crate::text::{concat_str, push_char};

verus! {

/// Configuration for file rotation.
#[derive(Clone, Debug)]
pub struct FileRotationConfig {
    pub max_file_size_bytes: u64,
    pub max_files: usize,
}

impl Default for FileRotationConfig {
    /// Files of up to 100 MiB, ten of them.
    fn default() -> (r: Self)
        ensures
            r.max_file_size_bytes == 100 * 1024 * 1024,
            r.max_files == 10,
    {
        FileRotationConfig { max_file_size_bytes: 100 * 1024 * 1024, max_files: 10 }
    }
}

/// Where a logger stands: the index of the file it writes, the bytes in
/// that file, and the lines written in all.
#[derive(Clone, Copy, Debug, PartialEq, Eq)]
pub struct RotationState {
    pub current_file_index: usize,
    pub current_file_size: u64,
    pub total_written: u64,
}

impl RotationState {
    /// Nothing written yet, to the first file.
    pub fn new() -> (r: Self)
        ensures
            r == (RotationState { current_file_index: 0, current_file_size: 0, total_written: 0 }),
    {
        RotationState { current_file_index: 0, current_file_size: 0, total_written: 0 }
    }

    /// Counts a line of `len` bytes written with its newline.
    pub fn record_line(&mut self, len: u64)
        requires
            old(self).current_file_size + len + 1 <= u64::MAX,
            old(self).total_written < u64::MAX,
        ensures
            final(self).current_file_size == old(self).current_file_size + len + 1,
            final(self).total_written == old(self).total_written + 1,
            final(self).current_file_index == old(self).current_file_index,
    {
        self.current_file_size = self.current_file_size + len + 1;
        self.total_written = self.total_written + 1;
    }

    /// After a batch of lines: once the file has reached its size limit the
    /// logger moves on to the next file of the ring, which starts empty; the
    /// index of that file is returned, for it to be cleared.
    pub fn end_batch(&mut self, rotation: &FileRotationConfig) -> (r: Option<usize>)
        requires
            rotation.max_files > 0,
        ensures
            old(self).current_file_size >= rotation.max_file_size_bytes ==> {
                &&& r == Some(((old(self).current_file_index + 1) % (rotation.max_files as int)) as usize)
                &&& final(self).current_file_index == r->0
                &&& final(self).current_file_size == 0
            },
            old(self).current_file_size < rotation.max_file_size_bytes ==> {
                &&& r is None
                &&& final(self).current_file_index == old(self).current_file_index
                &&& final(self).current_file_size == old(self).current_file_size
            },
            final(self).total_written == old(self).total_written,
    {
        if self.current_file_size >= rotation.max_file_size_bytes {
            let next: usize = if self.current_file_index < rotation.max_files - 1 {
                self.current_file_index + 1
            } else {
                (self.current_file_index % rotation.max_files + 1) % rotation.max_files
            };
            proof {
                let i = old(self).current_file_index as int;
                let n = rotation.max_files as int;
                if i < n - 1 {
                    assert((i + 1) % n == i + 1) by (nonlinear_arith)
                        requires
                            0 <= i < n - 1,
                    ;
                } else {
                    vstd::arithmetic::div_mod::lemma_add_mod_noop(i, 1, n);
                    if n > 1 {
                        vstd::arithmetic::div_mod::lemma_small_mod(1nat, n as nat);
                    } else {
                        vstd::arithmetic::div_mod::lemma_mod_self_0(1);
                        assert((i % n) % n == (i % n + 1) % n) by (nonlinear_arith)
                            requires
                                n == 1,
                        ;
                    }
                    assert(((i % n) + 1) % n == (i + 1) % n);
                }
            }
            self.current_file_index = next;
            self.current_file_size = 0;
            Some(next)
        } else {
            None
        }
    }
}

/// The files of a ring never run past its last one: starting from a file of
/// the ring, a logger stays within the ring whatever it writes.
pub proof fn law_rotation_stays_in_ring(index: usize, max_files: usize)
    requires
        max_files > 0,
        index < max_files,
    ensures
        (index + 1) % (max_files as int) < max_files,
        index + 1 < max_files ==> (index + 1) % (max_files as int) == index + 1,
        index + 1 == max_files ==> (index + 1) % (max_files as int) == 0,
{
    vstd::arithmetic::div_mod::lemma_mod_bound((index + 1) as int, max_files as int);
    if index + 1 < max_files {
        vstd::arithmetic::div_mod::lemma_small_mod((index + 1) as nat, max_files as nat);
    }
    if index + 1 == max_files {
        vstd::arithmetic::div_mod::lemma_mod_self_0(max_files as int);
    }
}

/// The decimal digits of `n`, most significant first.
pub open spec fn decimal_text(n: nat) -> Seq<char>
    decreases n,
{
    if n < 10 {
        seq![crate::nmea::digit_char(n as int)]
    } else {
        decimal_text(n / 10).push(crate::nmea::digit_char((n % 10) as int))
    }
}

pub proof fn lemma_decimal_len(n: nat)
    ensures
        decimal_text(n).len() >= 1,
        n >= 10 ==> decimal_text(n).len() > 1,
    decreases n,
{
    if n >= 10 {
        lemma_decimal_len(n / 10);
    }
}

/// The decimal text of `n` is made of decimal digits that read back as
/// `n`, with no leading zero.
pub proof fn law_decimal_text(n: nat)
    ensures
        crate::text::all_radix_digits(decimal_text(n), 10),
        crate::text::digits_value(decimal_text(n), 10) == n,
        decimal_text(n).len() > 1 ==> decimal_text(n)[0] != '0',
    decreases n,
{
    if n >= 10 {
        law_decimal_text(n / 10);
        let t = decimal_text(n);
        let d = crate::nmea::digit_char((n % 10) as int);
        assert(t.drop_last() =~= decimal_text(n / 10));
        assert(t.last() == d);
        assert(crate::text::digit_value(d, 10) == Some((n % 10) as nat));
        assert forall|i: int| 0 <= i < t.len() implies (#[trigger] crate::text::digit_value(t[i], 10)) is Some by {
            if i < t.len() - 1 {
                assert(t[i] == decimal_text(n / 10)[i]);
            }
        }
        assert(crate::text::digits_value(t, 10) == crate::text::digits_value(t.drop_last(), 10) * 10 + (n % 10));
        assert(n == (n / 10) * 10 + n % 10);
        if n / 10 < 10 {
            assert(t[0] == crate::nmea::digit_char((n / 10) as int));
        } else {
            lemma_decimal_len(n / 10);
            assert(t[0] == decimal_text(n / 10)[0]);
        }
    } else {
        let t = decimal_text(n);
        assert(crate::text::digit_value(crate::nmea::digit_char(n as int), 10) == Some(n));
        assert(t.drop_last() =~= Seq::<char>::empty());
        assert(crate::text::digits_value(t.drop_last(), 10) == 0);
        assert(crate::text::digits_value(t, 10) == crate::text::digits_value(t.drop_last(), 10) * 10 + n);
        assert forall|i: int| 0 <= i < t.len() implies (#[trigger] crate::text::digit_value(t[i], 10)) is Some by {
            assert(i == 0);
        }
    }
}

/// Writes `n` in decimal.
pub fn decimal(n: usize) -> (r: String)
    ensures
        r@ == decimal_text(n as nat),
    decreases n,
{
    if n < 10 {
        let mut r = String::new();
        push_char(&mut r, ((n as u8) + 48) as char);
        assert(r@ =~= decimal_text(n as nat));
        r
    } else {
        let mut r = decimal(n / 10);
        push_char(&mut r, (((n % 10) as u8) + 48) as char);
        r
    }
}

/// The name of file `index` of a ring whose first file has the stem `stem`
/// and the extension `ext`: `None` for the first file, which keeps its own
/// name, and `stem.index.ext` for the others.
pub open spec fn ring_file_name(stem: Seq<char>, ext: Seq<char>, index: nat) -> Option<Seq<char>> {
    if index == 0 {
        None
    } else {
        Some(stem + seq!['.'] + decimal_text(index) + seq!['.'] + ext)
    }
}

/// Names file `index` of a ring whose first file has the stem `stem` and
/// the extension `ext`; the first file keeps its own name.
pub fn rotated_file_name(stem: &str, index: usize, ext: &str) -> (r: Option<String>)
    ensures
        match r {
            Some(t) => ring_file_name(stem@, ext@, index as nat) == Some(t@),
            None => ring_file_name(stem@, ext@, index as nat) is None,
        },
{
    if index == 0 {
        return None;
    }
    let mut r = stem.to_owned();
    push_char(&mut r, '.');
    let digits = decimal(index);
    let mut r = concat_str(r.as_str(), digits.as_str());
    push_char(&mut r, '.');
    let r = concat_str(r.as_str(), ext);
    assert(r@ =~= stem@ + seq!['.'] + decimal_text(index as nat) + seq!['.'] + ext@);
    Some(r)
}

} // verus!
