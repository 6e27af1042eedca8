//! Parser for the external tool's verbose listing output: a header line
//! followed by one row per distribution, a leading `*` marking the default,
//! then name, state and version columns separated by whitespace.

use vstd::prelude::*;

use crate::models::{distros_view, DistroView, WslDistro, WslStatus, WslVersion};
use crate::text::{spec_fields, spec_lines, spec_trim, split_fields, split_lines, str_eq, trim_str};

verus! {

broadcast use vstd::seq::group_seq_axioms;

/// The distribution one listing row describes, if any: blank rows and rows
/// with fewer than three columns describe none.
pub open spec fn spec_parse_distro_line(line: Seq<char>) -> Option<DistroView> {
    let t = spec_trim(line);
    if t.len() == 0 {
        None
    } else {
        let is_default = t[0] == '*';
        let rest = if is_default {
            t.drop_first()
        } else {
            t
        };
        let f = spec_fields(rest);
        if f.len() >= 3 {
            Some(
                DistroView {
                    name: f[0],
                    status: if f[1] == "Running"@ {
                        WslStatus::Running
                    } else {
                        WslStatus::Stopped
                    },
                    version: if f[2] == "1"@ {
                        WslVersion::V1
                    } else {
                        WslVersion::V2
                    },
                    is_default: is_default,
                },
            )
        } else {
            None
        }
    }
}

/// The distributions a sequence of listing rows describes.
pub open spec fn spec_parse_rows(rows: Seq<Seq<char>>) -> Seq<DistroView>
    decreases rows.len(),
{
    if rows.len() == 0 {
        seq![]
    } else {
        match spec_parse_distro_line(rows[0]) {
            Some(d) => seq![d] + spec_parse_rows(rows.drop_first()),
            None => spec_parse_rows(rows.drop_first()),
        }
    }
}

/// The distributions a whole listing describes: every row after the header
/// line that parses.
pub open spec fn spec_parse_distros(s: Seq<char>) -> Seq<DistroView> {
    let ls = spec_lines(s);
    if ls.len() == 0 {
        seq![]
    } else {
        spec_parse_rows(ls.drop_first())
    }
}

/// The image of an optional parsed entry.
pub open spec fn view_opt(o: Option<WslDistro>) -> Option<DistroView> {
    match o {
        Some(d) => Some(d.view()),
        None => None,
    }
}

/// Parses one listing row.
pub fn parse_distro_line(line: &str) -> (r: Option<WslDistro>)
    ensures
        view_opt(r) == spec_parse_distro_line(line@),
{
    let t = trim_str(line);
    let tlen = t.unicode_len();
    if tlen == 0 {
        return None;
    }
    let is_default = t.get_char(0) == '*';
    let rest = if is_default {
        let r = t.substring_char(1, tlen);
        proof {
            assert(r@ =~= t@.drop_first());
        }
        r
    } else {
        t
    };
    let f = split_fields(rest);
    if f.len() >= 3 {
        proof {
            assert(f.deep_view()[0] == f@[0]@);
            assert(f.deep_view()[1] == f@[1]@);
            assert(f.deep_view()[2] == f@[2]@);
        }
        let status = if str_eq(f[1].as_str(), "Running") {
            WslStatus::Running
        } else {
            WslStatus::Stopped
        };
        let version = if str_eq(f[2].as_str(), "1") {
            WslVersion::V1
        } else {
            WslVersion::V2
        };
        let name = f[0].clone();
        Some(WslDistro { name, status, version, is_default })
    } else {
        None
    }
}

/// Parses the external tool's verbose listing into the cached list: the
/// header line is skipped, each remaining row that parses contributes one
/// entry, in row order.
pub fn parse_distros_list(output: &str) -> (r: Vec<WslDistro>)
    ensures
        distros_view(r@) == spec_parse_distros(output@),
{
    let lines = split_lines(output);
    let mut out: Vec<WslDistro> = Vec::new();
    let n = lines.len();
    if n == 0 {
        proof {
            assert(distros_view(out@) =~= spec_parse_distros(output@));
        }
        return out;
    }
    let ghost rows = lines.deep_view().drop_first();
    let mut i: usize = 1;
    proof {
        assert(rows =~= lines.deep_view().skip(1));
        assert(rows.skip(0) =~= rows);
        assert(distros_view(out@) =~= Seq::<DistroView>::empty());
        assert(distros_view(out@) + spec_parse_rows(rows.skip(0)) =~= spec_parse_rows(rows));
    }
    while i < n
        invariant
            1 <= i <= n,
            n == lines@.len(),
            lines.deep_view().len() == n,
            rows == lines.deep_view().drop_first(),
            distros_view(out@) + spec_parse_rows(rows.skip(i - 1)) == spec_parse_rows(rows),
        decreases n - i,
    {
        let ghost pre = out@;
        proof {
            assert(rows.skip(i - 1)[0] == rows[i - 1]);
            assert(rows[i - 1] == lines.deep_view()[i as int]);
            assert(lines.deep_view()[i as int] == lines@[i as int]@);
            assert(rows.skip(i - 1).drop_first() =~= rows.skip(i as int));
        }
        match parse_distro_line(lines[i].as_str()) {
            Some(d) => {
                let ghost dv = d.view();
                out.push(d);
                proof {
                    assert(distros_view(out@) =~= distros_view(pre) + seq![dv]);
                }
            },
            None => {},
        }
        i = i + 1;
    }
    proof {
        assert(rows.skip(n - 1) =~= Seq::<Seq<char>>::empty());
        assert(distros_view(out@) + spec_parse_rows(rows.skip(n - 1)) =~= distros_view(out@));
    }
    out
}

} // verus!
