//! Serializing a polygon set as path-drawing text.
//!
//! Coordinates are fixed-point (hundredths of a unit), so each one renders
//! as a decimal numeral with at most two fraction digits and no trailing
//! zeros. Every nonempty contour becomes a move-to, a line-to per further
//! vertex, and a close command; the contours join into one multi-subpath
//! string, wrapped in a minimal drawing document that carries the canvas
//! size and fills under the nonzero rule.

use vstd::prelude::*;
use vstd::string::StringExecFns;
use crate::geom::{COORD_LIMIT, Coord, iabs, wf_contour, wf_coord, wf_polys};

verus! {

/// The numeral for one decimal digit.
pub open spec fn digit_char(d: int) -> char {
    if d == 0 {
        '0'
    } else if d == 1 {
        '1'
    } else if d == 2 {
        '2'
    } else if d == 3 {
        '3'
    } else if d == 4 {
        '4'
    } else if d == 5 {
        '5'
    } else if d == 6 {
        '6'
    } else if d == 7 {
        '7'
    } else if d == 8 {
        '8'
    } else {
        '9'
    }
}

/// The decimal numeral of a nonnegative integer, most significant digit
/// first.
pub open spec fn dec_digits(n: int) -> Seq<char>
    decreases n,
{
    if n < 10 {
        seq![digit_char(n)]
    } else {
        dec_digits(n / 10) + seq![digit_char(n % 10)]
    }
}

/// The fraction part of a fixed-point numeral: empty for a whole number,
/// otherwise a point and one or two digits, with no trailing zero.
pub open spec fn frac_text(f: int) -> Seq<char> {
    if f == 0 {
        Seq::empty()
    } else if f % 10 == 0 {
        "."@ + seq![digit_char(f / 10)]
    } else {
        "."@ + seq![digit_char(f / 10), digit_char(f % 10)]
    }
}

/// The decimal text of a fixed-point value counted in hundredths.
pub open spec fn centi_text(v: int) -> Seq<char> {
    let sign: Seq<char> = if v < 0 {
        "-"@
    } else {
        Seq::empty()
    };
    sign + dec_digits(iabs(v) / 100) + frac_text(iabs(v) % 100)
}

/// One vertex as "x y".
pub open spec fn coord_text(p: Coord) -> Seq<char> {
    centi_text(p.x as int) + " "@ + centi_text(p.y as int)
}

/// The line-to commands for the vertices of `c` before index `k`,
/// the first vertex excepted.
pub open spec fn line_cmds(c: Seq<Coord>, k: int) -> Seq<char>
    decreases k,
{
    if k <= 1 {
        Seq::empty()
    } else {
        line_cmds(c, k - 1) + " L "@ + coord_text(c[k - 1])
    }
}

/// The full command text of one contour: move to its first vertex, a line
/// to every further one, then close. An empty contour renders as nothing.
pub open spec fn contour_cmds(c: Seq<Coord>) -> Seq<char> {
    if c.len() == 0 {
        Seq::empty()
    } else {
        "M "@ + coord_text(c[0]) + line_cmds(c, c.len() as int) + " Z"@
    }
}

/// The command text of a whole polygon set: its nonempty contours'
/// commands, joined by single spaces.
pub open spec fn path_data_text(s: Seq<Seq<Coord>>) -> Seq<char>
    decreases s.len(),
{
    if s.len() == 0 {
        Seq::empty()
    } else {
        let front = path_data_text(s.drop_last());
        if s.last().len() == 0 {
            front
        } else if front.len() == 0 {
            contour_cmds(s.last())
        } else {
            front + " "@ + contour_cmds(s.last())
        }
    }
}

/// The output document: a minimal drawing with the canvas size (in
/// hundredths of a unit) and one path filled under the nonzero rule.
pub open spec fn document_text(w: int, h: int, d: Seq<char>) -> Seq<char> {
    "<?xml version=\"1.0\" encoding=\"UTF-8\"?>\n<svg xmlns=\"http://www.w3.org/2000/svg\" viewBox=\"0 0 "@
        + centi_text(w) + " "@ + centi_text(h) + "\" width=\""@ + centi_text(w) + "px\" height=\""@
        + centi_text(h) + "px\">\n<path d=\""@ + d
        + "\" fill=\"black\" fill-rule=\"nonzero\" stroke=\"none\"/>\n</svg>\n"@
}

/// The numeral of one digit, as text.
fn digit_str(d: u64) -> (r: &'static str)
    requires
        d < 10,
    ensures
        r@ == seq![digit_char(d as int)],
{
    match d {
        0 => {
            proof {
                reveal_strlit("0");
                assert("0"@ =~= seq!['0']);
            }
            "0"
        },
        1 => {
            proof {
                reveal_strlit("1");
                assert("1"@ =~= seq!['1']);
            }
            "1"
        },
        2 => {
            proof {
                reveal_strlit("2");
                assert("2"@ =~= seq!['2']);
            }
            "2"
        },
        3 => {
            proof {
                reveal_strlit("3");
                assert("3"@ =~= seq!['3']);
            }
            "3"
        },
        4 => {
            proof {
                reveal_strlit("4");
                assert("4"@ =~= seq!['4']);
            }
            "4"
        },
        5 => {
            proof {
                reveal_strlit("5");
                assert("5"@ =~= seq!['5']);
            }
            "5"
        },
        6 => {
            proof {
                reveal_strlit("6");
                assert("6"@ =~= seq!['6']);
            }
            "6"
        },
        7 => {
            proof {
                reveal_strlit("7");
                assert("7"@ =~= seq!['7']);
            }
            "7"
        },
        8 => {
            proof {
                reveal_strlit("8");
                assert("8"@ =~= seq!['8']);
            }
            "8"
        },
        _ => {
            proof {
                reveal_strlit("9");
                assert("9"@ =~= seq!['9']);
            }
            "9"
        },
    }
}

/// Append the decimal numeral of `n`.
fn push_digits(out: &mut String, n: u64)
    ensures
        final(out)@ == old(out)@ + dec_digits(n as int),
    decreases n,
{
    if n < 10 {
        let s = digit_str(n);
        out.append(s);
    } else {
        push_digits(out, n / 10);
        let s = digit_str(n % 10);
        out.append(s);
        proof {
            assert(old(out)@ + dec_digits((n / 10) as int) + seq![digit_char((n % 10) as int)]
                =~= old(out)@ + dec_digits(n as int));
        }
    }
}

/// Append the fixed-point numeral of `v` hundredths.
fn push_centi(out: &mut String, v: i64)
    requires
        -COORD_LIMIT <= v <= COORD_LIMIT,
    ensures
        final(out)@ == old(out)@ + centi_text(v as int),
{
    let a: u64 = if v < 0 {
        out.append("-");
        (-v) as u64
    } else {
        v as u64
    };
    proof {
        assert(a as int == iabs(v as int));
    }
    let w: u64 = a / 100;
    let f: u64 = a % 100;
    push_digits(out, w);
    if f != 0 {
        out.append(".");
        let s = digit_str(f / 10);
        out.append(s);
        if f % 10 != 0 {
            let s2 = digit_str(f % 10);
            out.append(s2);
            proof {
                assert(seq![digit_char((f / 10) as int)] + seq![digit_char((f % 10) as int)]
                    =~= seq![digit_char((f / 10) as int), digit_char((f % 10) as int)]);
            }
        }
    }
    proof {
        assert(final(out)@ =~= old(out)@ + centi_text(v as int));
    }
}

/// Append one vertex as "x y".
fn push_coord(out: &mut String, p: Coord)
    requires
        wf_coord(p),
    ensures
        final(out)@ == old(out)@ + coord_text(p),
{
    push_centi(out, p.x);
    out.append(" ");
    push_centi(out, p.y);
    proof {
        assert(final(out)@ =~= old(out)@ + coord_text(p));
    }
}

/// Append the command text of one contour.
fn push_contour(out: &mut String, c: &Vec<Coord>)
    requires
        wf_contour(c@),
    ensures
        final(out)@ == old(out)@ + contour_cmds(c@),
{
    if c.len() == 0 {
        proof {
            assert(final(out)@ =~= old(out)@ + contour_cmds(c@));
        }
        return ;
    }
    let ghost base = out@;
    out.append("M ");
    push_coord(out, c[0]);
    let mut i: usize = 1;
    proof {
        assert(out@ =~= base + "M "@ + coord_text(c@[0]) + line_cmds(c@, 1));
    }
    while i < c.len()
        invariant
            wf_contour(c@),
            1 <= i <= c@.len(),
            out@ == base + "M "@ + coord_text(c@[0]) + line_cmds(c@, i as int),
        decreases c@.len() - i,
    {
        out.append(" L ");
        push_coord(out, c[i]);
        proof {
            assert(out@ =~= base + "M "@ + coord_text(c@[0]) + line_cmds(c@, i + 1));
        }
        i = i + 1;
    }
    out.append(" Z");
    proof {
        assert(final(out)@ =~= old(out)@ + contour_cmds(c@));
    }
}

/// Serialize a polygon set as one multi-subpath command string: for each
/// nonempty contour a move-to, line-to commands for its further vertices,
/// and a close; empty contours are skipped.
pub fn emit_path_data(polys: &Vec<Vec<Coord>>) -> (r: String)
    requires
        wf_polys(polys.deep_view()),
    ensures
        r@ == path_data_text(polys.deep_view()),
{
    let ghost dv = polys.deep_view();
    let mut out = String::new();
    let mut nonempty: bool = false;
    let mut i: usize = 0;
    proof {
        assert(out@ =~= path_data_text(dv.take(0)));
    }
    while i < polys.len()
        invariant
            wf_polys(dv),
            dv == polys.deep_view(),
            dv.len() == polys@.len(),
            0 <= i <= polys@.len(),
            out@ == path_data_text(dv.take(i as int)),
            nonempty == (path_data_text(dv.take(i as int)).len() != 0),
        decreases polys@.len() - i,
    {
        let ghost front = path_data_text(dv.take(i as int));
        proof {
            assert(dv.take(i + 1).drop_last() =~= dv.take(i as int));
            assert(dv.take(i + 1).last() == dv[i as int]);
            assert(dv[i as int] =~= polys@[i as int]@);
            assert(wf_contour(dv[i as int]));
        }
        if polys[i].len() > 0 {
            proof {
                reveal_strlit("M ");
            }
            if nonempty {
                out.append(" ");
            }
            push_contour(&mut out, &polys[i]);
            proof {
                assert(out@ =~= path_data_text(dv.take(i + 1)));
                assert(path_data_text(dv.take(i + 1)).len() != 0);
            }
            nonempty = true;
        }
        i = i + 1;
    }
    proof {
        assert(dv.take(dv.len() as int) =~= dv);
    }
    out
}

/// Wrap serialized path data in a minimal output document that carries
/// the canvas width and height (hundredths of a unit) and fills the one
/// path under the nonzero rule, with no stroke.
pub fn emit_document(w_centi: i64, h_centi: i64, polys: &Vec<Vec<Coord>>) -> (r: String)
    requires
        0 <= w_centi <= COORD_LIMIT,
        0 <= h_centi <= COORD_LIMIT,
        wf_polys(polys.deep_view()),
    ensures
        r@ == document_text(w_centi as int, h_centi as int, path_data_text(polys.deep_view())),
{
    let d = emit_path_data(polys);
    let mut out = String::new();
    out.append(
        "<?xml version=\"1.0\" encoding=\"UTF-8\"?>\n<svg xmlns=\"http://www.w3.org/2000/svg\" viewBox=\"0 0 ",
    );
    push_centi(&mut out, w_centi);
    out.append(" ");
    push_centi(&mut out, h_centi);
    out.append("\" width=\"");
    push_centi(&mut out, w_centi);
    out.append("px\" height=\"");
    push_centi(&mut out, h_centi);
    out.append("px\">\n<path d=\"");
    out.append(d.as_str());
    out.append("\" fill=\"black\" fill-rule=\"nonzero\" stroke=\"none\"/>\n</svg>\n");
    proof {
        assert(out@ =~= document_text(
            w_centi as int,
            h_centi as int,
            path_data_text(polys.deep_view()),
        ));
    }
    out
}

} // verus!
