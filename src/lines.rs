//! Splitting a buffer into newline-delimited lines.
use vstd::prelude::*;

verus! {

/// The line feed byte that ends a line.
pub const NEWLINE: u8 = 10;

/// The carriage return byte that may stand before a line feed.
pub const CARRIAGE_RETURN: u8 = 13;

/// A finished line: with `strip_cr`, one carriage return before its line
/// feed is dropped.
pub open spec fn finish_line(cur: Seq<u8>, strip_cr: bool) -> Seq<u8> {
    if strip_cr && cur.len() > 0 && cur.last() == CARRIAGE_RETURN {
        cur.drop_last()
    } else {
        cur
    }
}

/// The lines of `b` finished so far, and the bytes of the line still open.
pub open spec fn line_parts(b: Seq<u8>, strip_cr: bool) -> (Seq<Seq<u8>>, Seq<u8>)
    decreases b.len(),
{
    if b.len() == 0 {
        (seq![], seq![])
    } else {
        let (done, cur) = line_parts(b.drop_last(), strip_cr);
        if b.last() == NEWLINE {
            (done.push(finish_line(cur, strip_cr)), seq![])
        } else {
            (done, cur.push(b.last()))
        }
    }
}

/// The lines of `b`: the pieces between line feeds, without them; a last
/// piece is a line only if it is not empty.
pub open spec fn lines_of(b: Seq<u8>, strip_cr: bool) -> Seq<Seq<u8>> {
    let (done, cur) = line_parts(b, strip_cr);
    if cur.len() == 0 {
        done
    } else {
        done.push(cur)
    }
}

/// The contents of each buffer of `s`.
pub open spec fn views(s: Seq<Vec<u8>>) -> Seq<Seq<u8>> {
    s.map_values(|x: Vec<u8>| x@)
}

/// Splits `b` into its lines; with `strip_cr`, a carriage return before a
/// line feed is dropped as well.
pub fn split_lines(b: &[u8], strip_cr: bool) -> (r: Vec<Vec<u8>>)
    ensures
        views(r@) == lines_of(b@, strip_cr),
{
    let mut done: Vec<Vec<u8>> = Vec::new();
    let mut cur: Vec<u8> = Vec::new();
    let mut i: usize = 0;
    while i < b.len()
        invariant
            0 <= i <= b@.len(),
            views(done@) == line_parts(b@.subrange(0, i as int), strip_cr).0,
            cur@ == line_parts(b@.subrange(0, i as int), strip_cr).1,
        decreases b@.len() - i,
    {
        proof {
            assert(b@.subrange(0, i + 1).drop_last() =~= b@.subrange(0, i as int));
        }
        let c: u8 = b[i];
        if c == NEWLINE {
            if strip_cr && cur.len() > 0 && cur[cur.len() - 1] == CARRIAGE_RETURN {
                cur.pop();
            }
            let line: Vec<u8> = cur;
            let ghost before = views(done@);
            done.push(line);
            proof {
                assert(views(done@) =~= before.push(line@));
            }
            cur = Vec::new();
        } else {
            cur.push(c);
        }
        i = i + 1;
    }
    proof {
        assert(b@.subrange(0, b@.len() as int) =~= b@);
    }
    if cur.len() > 0 {
        let line: Vec<u8> = cur;
        let ghost before = views(done@);
        done.push(line);
        proof {
            assert(views(done@) =~= before.push(line@));
        }
    }
    done
}

} // verus!
