//! Encoding of ACPI name paths.

use vstd::prelude::*;
use crate::acpigen::{AcpiGen, Error, DUAL_NAME_PREFIX, MULTI_NAME_PREFIX};
use vstd::string::StringSliceAdditionalSpecFns;
use crate::aml::{
    ACPIGEN_MAXLEN, count_dots, lemma_segment_bytes_len, lemma_split_done, lemma_split_len, lemma_split_scan,
    lemma_split_step, name_prefix_len, name_segments, namestring, pad_segment,
    parent_prefix_end, segment_bytes, segment_header, simple_name, split_dots,
};

verus! {

/// Whether a name path can be encoded: a MultiNamePrefix counts at most 255
/// segments.
pub open spec fn name_ok(s: Seq<u8>) -> bool {
    name_prefix_len(s) == s.len() || name_segments(s).len() <= 255
}

/// The error that encoding the name path `s` reports, if any.
pub open spec fn name_err(s: Seq<u8>) -> Option<Error> {
    if name_ok(s) {
        None
    } else {
        Some(Error::NameTooLong)
    }
}

/// Number of dots in `s`.
fn dots_in(s: &[u8]) -> (n: usize)
    ensures
        n == count_dots(s@),
{
    let mut n: usize = 0;
    let mut i: usize = 0;
    proof {
        assert(s@.subrange(0, 0) =~= Seq::<u8>::empty());
    }
    while i < s.len()
        invariant
            i <= s@.len(),
            n == count_dots(s@.subrange(0, i as int)),
            n <= i,
        decreases s@.len() - i,
    {
        proof {
            lemma_split_step(s@, i as int);
        }
        if s[i] == 0x2e {
            n = n + 1;
        }
        i = i + 1;
    }
    assert(s@.subrange(0, i as int) =~= s@);
    n
}

/// Length of the `\` and `^` prefix of a name path.
fn prefix_len(s: &[u8]) -> (p: usize)
    ensures
        p == name_prefix_len(s@),
        p <= s@.len(),
{
    let mut p: usize = 0;
    if s.len() > 0 && s[0] == 0x5c {
        p = 1;
    }
    while p < s.len() && s[p] == 0x5e
        invariant
            p <= s@.len(),
            parent_prefix_end(s@, p as int) == name_prefix_len(s@),
        decreases s@.len() - p,
    {
        p = p + 1;
    }
    p
}

/// Tells whether the name path `s` can be encoded.
pub fn check_namestring(s: &[u8]) -> (r: Result<(), Error>)
    ensures
        r is Ok <==> name_ok(s@),
        r is Err ==> r == Err::<(), Error>(Error::NameTooLong),
{
    let p = prefix_len(s);
    if p == s.len() {
        return Ok(());
    }
    let (_, rest) = s.split_at(p);
    proof {
        lemma_split_len(rest@);
    }
    if dots_in(rest) > 254 {
        Err(Error::NameTooLong)
    } else {
        Ok(())
    }
}

impl AcpiGen {
    /// Pushes `s[start..end]` cut or padded to four bytes.
    fn push_segment(&mut self, s: &[u8], start: usize, end: usize)
        requires
            old(self).wf(),
            start <= end <= s@.len(),
            old(self).fits(4),
        ensures
            final(self).wf(),
            final(self).open_blocks() == old(self).open_blocks(),
            final(self).bytes() == old(self).bytes() + pad_segment(s@.subrange(start as int, end as int)),
    {
        let n: usize = if end - start < 4 {
            end - start
        } else {
            4
        };
        let mut j: usize = 0;
        while j < n
            invariant
                self.wf(),
                j <= n <= 4,
                start + n <= end <= s@.len(),
                old(self).fits(4),
                self.bytes() == old(self).bytes() + s@.subrange(start as int, start + j),
                self.open_blocks() == old(self).open_blocks(),
            decreases n - j,
        {
            self.push(s[start + j]);
            assert(s@.subrange(start as int, start + j + 1) =~= s@.subrange(start as int, start + j).push(s@[start + j]));
            j = j + 1;
        }
        while j < 4
            invariant
                self.wf(),
                n <= j <= 4,
                start + n <= end <= s@.len(),
                old(self).fits(4),
                self.bytes() == old(self).bytes() + s@.subrange(start as int, start + n) + Seq::new(
                    (j - n) as nat,
                    |_i: int| 0x5fu8,
                ),
                self.open_blocks() == old(self).open_blocks(),
            decreases 4 - j,
        {
            self.push(0x5f);
            assert(Seq::new((j + 1 - n) as nat, |_i: int| 0x5fu8) =~= Seq::new(
                (j - n) as nat,
                |_i: int| 0x5fu8,
            ).push(0x5f));
            j = j + 1;
        }
        assert(s@.subrange(start as int, start + n) =~= s@.subrange(start as int, end as int).subrange(0, n as int));
    }

    /// Pushes the first `limit` segments of `s`, four bytes each.
    fn push_segments(&mut self, s: &[u8], limit: usize)
        requires
            old(self).wf(),
            1 <= limit <= split_dots(s@).len(),
            old(self).fits(4 * limit),
        ensures
            final(self).wf(),
            final(self).open_blocks() == old(self).open_blocks(),
            final(self).bytes() == old(self).bytes() + segment_bytes(
                split_dots(s@).subrange(0, limit as int),
            ),
    {
        let ghost mut done: Seq<Seq<u8>> = Seq::empty();
        let mut start: usize = 0;
        let mut i: usize = 0;
        let mut k: usize = 0;
        proof {
            assert(s@.subrange(0, 0) =~= Seq::<u8>::empty());
            assert(split_dots(Seq::<u8>::empty()) == Seq::<Seq<u8>>::empty().push(Seq::<u8>::empty()));
        }
        loop
            invariant
                self.wf(),
                start <= i <= s@.len(),
                k < limit,
                done.len() == k,
                1 <= limit <= split_dots(s@).len(),
                old(self).fits(4 * limit),
                split_dots(s@.subrange(0, i as int)) == done.push(s@.subrange(start as int, i as int)),
                self.bytes() == old(self).bytes() + segment_bytes(done),
                self.open_blocks() == old(self).open_blocks(),
            decreases s@.len() - i,
        {
            let at_end = i == s.len() || s[i] == 0x2e;
            if at_end {
                proof {
                    lemma_segment_bytes_len(done);
                }
                let ghost seg = s@.subrange(start as int, i as int);
                self.push_segment(s, start, i);
                proof {
                    if i < s@.len() {
                        lemma_split_scan(s@, done, start as int, i as int);
                    }
                    assert(done.push(seg).drop_last() =~= done);
                    done = done.push(seg);
                }
                k = k + 1;
                if k == limit || i == s.len() {
                    proof {
                        if i == s@.len() {
                            assert(s@.subrange(0, i as int) =~= s@);
                            assert(split_dots(s@).subrange(0, limit as int) =~= done);
                        } else {
                            lemma_split_done(s@, done, i as int);
                        }
                    }
                    return;
                }
                start = i + 1;
            } else {
                proof {
                    lemma_split_scan(s@, done, start as int, i as int);
                }
            }
            i = i + 1;
        }
    }

    /// Pushes the first segment of `s`, four bytes.
    pub(crate) fn push_first_segment(&mut self, s: &[u8])
        requires
            old(self).wf(),
            old(self).fits(4),
        ensures
            final(self).wf(),
            final(self).open_blocks() == old(self).open_blocks(),
            final(self).bytes() == old(self).bytes() + simple_name(s@),
    {
        proof {
            lemma_split_len(s@);
        }
        self.push_segments(s, 1);
        proof {
            lemma_segment_bytes_len(Seq::<Seq<u8>>::empty());
            let first = split_dots(s@).subrange(0, 1);
            assert(first.drop_last() =~= Seq::<Seq<u8>>::empty());
            assert(segment_bytes(first) =~= simple_name(s@));
        }
    }

    /// Emits the AML NameString for the name path `name`.
    pub fn emit_namestring_bytes(&mut self, name: &[u8]) -> (r: Result<(), Error>)
        requires
            old(self).wf(),
        ensures
            final(self).emitted(old(self), namestring(name@), name_err(name@), r),
            r is Err ==> final(self).unchanged(old(self)),
    {
        let p = prefix_len(name);
        let (prefix, rest) = name.split_at(p);
        let room = ACPIGEN_MAXLEN - self.buf_len();
        if p == name.len() {
            if p >= room {
                return Err(Error::BufferFull);
            }
            self.push_all(prefix);
            self.push(0x00);
            proof {
                assert(prefix@ =~= name@.subrange(0, p as int));
            }
            return Ok(());
        }
        proof {
            lemma_split_len(rest@);
            assert(rest@ =~= name@.subrange(p as int, name@.len() as int));
        }
        let dots = dots_in(rest);
        if dots > 254 {
            return Err(Error::NameTooLong);
        }
        let n = dots + 1;
        let h: usize = if n == 1 {
            0
        } else if n == 2 {
            1
        } else {
            2
        };
        proof {
            lemma_segment_bytes_len(split_dots(rest@));
            assert(name_segments(name@) == split_dots(rest@));
            assert(segment_header(n as int).len() == h);
            assert(namestring(name@).len() == p + h + 4 * n);
        }
        if p > room || h + 4 * n > room - p {
            return Err(Error::BufferFull);
        }
        self.push_all(prefix);
        if n == 2 {
            self.push(0x2e);
        } else if n > 2 {
            self.push(0x2f);
            self.push(n as u8);
        }
        self.push_segments(rest, n);
        proof {
            assert(split_dots(rest@).subrange(0, n as int) =~= split_dots(rest@));
            assert(prefix@ =~= name@.subrange(0, p as int));
            if n == 2 {
                assert(segment_header(n as int) =~= seq![0x2eu8]);
            } else if n > 2 {
                assert(segment_header(n as int) =~= seq![0x2fu8, n as u8]);
            } else {
                assert(segment_header(n as int) =~= Seq::<u8>::empty());
            }
            assert(self.bytes() =~= old(self).bytes() + namestring(name@));
        }
        Ok(())
    }
}

} // verus!

verus! {

/// A string has at most as many dots as bytes.
pub proof fn lemma_count_dots_le(s: Seq<u8>)
    ensures
        count_dots(s) <= s.len(),
    decreases s.len(),
{
    if s.len() > 0 {
        lemma_count_dots_le(s.drop_last());
    }
}

/// Name paths shorter than 255 bytes can always be encoded.
pub proof fn lemma_short_name_ok(s: Seq<u8>)
    requires
        s.len() < 255,
    ensures
        name_ok(s),
        name_err(s) is None,
{
    let rest = s.subrange(name_prefix_len(s), s.len() as int);
    if name_prefix_len(s) != s.len() {
        lemma_prefix_len_bound(s);
        lemma_split_len(rest);
        lemma_count_dots_le(rest);
    }
}

/// The prefix of a name path lies within it.
pub proof fn lemma_prefix_len_bound(s: Seq<u8>)
    ensures
        0 <= name_prefix_len(s) <= s.len(),
{
    if s.len() > 0 && s[0] == 0x5c {
        lemma_parent_end_bound(s, 1);
    } else {
        lemma_parent_end_bound(s, 0);
    }
}

proof fn lemma_parent_end_bound(s: Seq<u8>, i: int)
    requires
        0 <= i <= s.len(),
    ensures
        i <= parent_prefix_end(s, i) <= s.len(),
    decreases s.len() - i,
{
    if i < s.len() && s[i] == 0x5e {
        lemma_parent_end_bound(s, i + 1);
    }
}

impl AcpiGen {
    /// `DualNamePrefix`, then the first segment of `name` and the segment
    /// after position `dotpos`.
    pub fn emit_double_namestring(&mut self, name: &str, dotpos: usize) -> (r: Result<(), Error>)
        requires
            old(self).wf(),
            dotpos < name.spec_bytes().len(),
        ensures
            final(self).appended(
                old(self),
                seq![DUAL_NAME_PREFIX] + simple_name(name.spec_bytes()) + simple_name(
                    name.spec_bytes().subrange(dotpos + 1, name.spec_bytes().len() as int),
                ),
                r,
            ),
    {
        let b = name.as_bytes();
        let len = b.len();
        assert(dotpos < len);
        let (_, tail) = b.split_at(dotpos + 1);
        if 9 > ACPIGEN_MAXLEN - self.buf_len() {
            return Err(Error::BufferFull);
        }
        self.push(DUAL_NAME_PREFIX);
        self.push_first_segment(b);
        self.push_first_segment(tail);
        proof {
            assert(self.bytes() =~= old(self).bytes() + (seq![DUAL_NAME_PREFIX] + simple_name(b@)
                + simple_name(tail@)));
        }
        Ok(())
    }

    /// `MultiNamePrefix`, the number of dot-separated segments of `name`,
    /// then each segment; fails with `NameTooLong` above 255 segments.
    pub fn emit_multi_namestring(&mut self, name: &str) -> (r: Result<(), Error>)
        requires
            old(self).wf(),
        ensures
            final(self).emitted(
                old(self),
                seq![MULTI_NAME_PREFIX, split_dots(name.spec_bytes()).len() as u8] + segment_bytes(
                    split_dots(name.spec_bytes()),
                ),
                if split_dots(name.spec_bytes()).len() > 255 {
                    Some(Error::NameTooLong)
                } else {
                    None
                },
                r,
            ),
    {
        let b = name.as_bytes();
        proof {
            lemma_split_len(b@);
            lemma_segment_bytes_len(split_dots(b@));
        }
        let dots = dots_in(b);
        if dots > 254 {
            return Err(Error::NameTooLong);
        }
        let n = dots + 1;
        if 2 + 4 * n > ACPIGEN_MAXLEN - self.buf_len() {
            return Err(Error::BufferFull);
        }
        self.push(MULTI_NAME_PREFIX);
        self.push(n as u8);
        self.push_segments(b, n);
        proof {
            assert(split_dots(b@).subrange(0, n as int) =~= split_dots(b@));
            assert(self.bytes() =~= old(self).bytes() + (seq![MULTI_NAME_PREFIX, n as u8]
                + segment_bytes(split_dots(b@))));
        }
        Ok(())
    }
}

} // verus!
