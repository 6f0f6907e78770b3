//! Building the game's launch arguments from the settings, and splitting a
//! custom option string into arguments the way a shell-like quoting reads it.

use vstd::prelude::*;
use vstd::string::StringExecFns;
use crate::num::{dec_chars, fmt_dec};
use crate::settings::AppSettings;
use crate::text::{from_chars, is_space, is_space_char};
use crate::text::to_chars;

verus! {

/// Splitting a custom option string: backslash escapes the next character,
/// quotes (single or double) group words, unquoted whitespace separates
/// arguments.
pub open spec fn split_args_rec(
    s: Seq<char>,
    i: int,
    in_q: bool,
    qc: char,
    esc: bool,
    cur: Seq<char>,
    acc: Seq<Seq<char>>,
) -> Seq<Seq<char>>
    decreases s.len() - i,
    when 0 <= i
{
    if i >= s.len() {
        if cur.len() > 0 {
            acc.push(cur)
        } else {
            acc
        }
    } else {
        let c = s[i];
        if esc {
            split_args_rec(s, i + 1, in_q, qc, false, cur.push(c), acc)
        } else if c == '\\' {
            split_args_rec(s, i + 1, in_q, qc, true, cur, acc)
        } else if c == '"' || c == '\'' {
            if in_q {
                if c == qc {
                    split_args_rec(s, i + 1, false, qc, false, cur, acc)
                } else {
                    split_args_rec(s, i + 1, true, qc, false, cur.push(c), acc)
                }
            } else {
                split_args_rec(s, i + 1, true, c, false, cur, acc)
            }
        } else if is_space_char(c) && !in_q {
            if cur.len() > 0 {
                split_args_rec(s, i + 1, in_q, qc, false, Seq::<char>::empty(), acc.push(cur))
            } else {
                split_args_rec(s, i + 1, in_q, qc, false, cur, acc)
            }
        } else {
            split_args_rec(s, i + 1, in_q, qc, false, cur.push(c), acc)
        }
    }
}

pub open spec fn spec_split_args(s: Seq<char>) -> Seq<Seq<char>> {
    split_args_rec(s, 0, false, '\u{0}', false, Seq::<char>::empty(), Seq::<Seq<char>>::empty())
}

/// Split a custom launch-option string into arguments, honouring quotes and
/// backslash escapes.
pub fn split_args_quoted(src: &str) -> (r: Vec<String>)
    ensures
        r.deep_view() == spec_split_args(src@),
{
    let s = to_chars(src);
    let mut acc: Vec<String> = Vec::new();
    let mut cur: Vec<char> = Vec::new();
    let mut in_quotes = false;
    let mut quote_char: char = '\u{0}';
    let mut escape = false;
    let mut i: usize = 0;
    proof {
        assert(cur@ =~= Seq::<char>::empty());
        assert(acc.deep_view() =~~= Seq::<Seq<char>>::empty());
    }
    while i < s.len()
        invariant
            i <= s.len(),
            s@ == src@,
            spec_split_args(src@) == split_args_rec(
                s@,
                i as int,
                in_quotes,
                quote_char,
                escape,
                cur@,
                acc.deep_view(),
            ),
        decreases s.len() - i,
    {
        let c = s[i];
        let ghost prev_acc = acc.deep_view();
        let ghost prev_cur = cur@;
        if escape {
            cur.push(c);
            escape = false;
        } else if c == '\\' {
            escape = true;
        } else if c == '"' || c == '\'' {
            if in_quotes {
                if c == quote_char {
                    in_quotes = false;
                } else {
                    cur.push(c);
                }
            } else {
                in_quotes = true;
                quote_char = c;
            }
        } else if is_space(c) && !in_quotes {
            if cur.len() > 0 {
                let w = from_chars(&cur);
                acc.push(w);
                cur = Vec::new();
                proof {
                    assert(acc.deep_view() =~~= prev_acc.push(prev_cur));
                    assert(cur@ =~= Seq::<char>::empty());
                }
            }
        } else {
            cur.push(c);
        }
        i = i + 1;
    }
    if cur.len() > 0 {
        let ghost prev_acc = acc.deep_view();
        let w = from_chars(&cur);
        acc.push(w);
        proof {
            assert(acc.deep_view() =~~= prev_acc.push(cur@));
        }
    }
    acc
}

/// The argument list the game is launched with: fixed rendering flags, the
/// optional window size, the feature toggles, then the custom options.
pub open spec fn spec_launch_args(s: AppSettings) -> Seq<Seq<char>> {
    let console: Seq<Seq<char>> = if s.console_enabled {
        seq!["-console"@]
    } else {
        seq![]
    };
    let fixed: Seq<Seq<char>> = seq![
        "-dxlevel"@,
        "90"@,
        "+mat_disable_d3d9ex"@,
        "1"@,
        "-nod3d9ex"@,
        "-windowed"@,
        "-noborder"@,
    ];
    let wh: Seq<Seq<char>> = match (s.width, s.height) {
        (Some(w), Some(h)) => if w > 0 && h > 0 {
            seq!["-w"@, dec_chars(w as nat), "-h"@, dec_chars(h as nat)]
        } else {
            seq![]
        },
        _ => seq![],
    };
    let workshop: Seq<Seq<char>> = if !s.load_workshop_addons {
        seq!["-noworkshop"@]
    } else {
        seq![]
    };
    let chromium: Seq<Seq<char>> = if s.disable_chromium {
        seq!["-nochromium"@]
    } else {
        seq![]
    };
    let dev: Seq<Seq<char>> = if s.developer_mode {
        seq!["-dev"@]
    } else {
        seq![]
    };
    let tools: Seq<Seq<char>> = if s.tools_mode {
        seq!["-tools"@]
    } else {
        seq![]
    };
    let custom: Seq<Seq<char>> = match s.custom_launch_options {
        Some(c) => spec_split_args(c@),
        None => seq![],
    };
    console + fixed + wh + workshop + chromium + dev + tools + custom
}

#[verifier::rlimit(100)]
pub fn build_launch_args(settings: &AppSettings) -> (args: Vec<String>)
    ensures
        args.deep_view() == spec_launch_args(*settings),
{
    let ghost s = *settings;
    let mut args: Vec<String> = Vec::new();
    if settings.console_enabled {
        args.push(String::from_str("-console"));
    }
    let ghost console = args.deep_view();
    args.push(String::from_str("-dxlevel"));
    args.push(String::from_str("90"));
    args.push(String::from_str("+mat_disable_d3d9ex"));
    args.push(String::from_str("1"));
    args.push(String::from_str("-nod3d9ex"));
    args.push(String::from_str("-windowed"));
    args.push(String::from_str("-noborder"));
    proof {
        let fixed: Seq<Seq<char>> = seq![
            "-dxlevel"@,
            "90"@,
            "+mat_disable_d3d9ex"@,
            "1"@,
            "-nod3d9ex"@,
            "-windowed"@,
            "-noborder"@,
        ];
        assert(args.deep_view() =~~= console + fixed);
    }
    let ghost base = args.deep_view();
    match (settings.width, settings.height) {
        (Some(w), Some(h)) => {
            if w > 0 && h > 0 {
                args.push(String::from_str("-w"));
                args.push(fmt_dec(w as u64));
                args.push(String::from_str("-h"));
                args.push(fmt_dec(h as u64));
                proof {
                    assert(args.deep_view() =~~= base + seq![
                        "-w"@,
                        dec_chars(s.width->Some_0 as nat),
                        "-h"@,
                        dec_chars(s.height->Some_0 as nat),
                    ]);
                }
            }
        },
        _ => {},
    }
    proof {
        assert(args.deep_view() =~~= base + (match (s.width, s.height) {
            (Some(w), Some(h)) => if w > 0 && h > 0 {
                seq!["-w"@, dec_chars(w as nat), "-h"@, dec_chars(h as nat)]
            } else {
                Seq::<Seq<char>>::empty()
            },
            _ => Seq::<Seq<char>>::empty(),
        }));
    }
    let ghost base2 = args.deep_view();
    if !settings.load_workshop_addons {
        args.push(String::from_str("-noworkshop"));
    }
    if settings.disable_chromium {
        args.push(String::from_str("-nochromium"));
    }
    if settings.developer_mode {
        args.push(String::from_str("-dev"));
    }
    if settings.tools_mode {
        args.push(String::from_str("-tools"));
    }
    proof {
        let workshop: Seq<Seq<char>> = if !s.load_workshop_addons {
            seq!["-noworkshop"@]
        } else {
            seq![]
        };
        let chromium: Seq<Seq<char>> = if s.disable_chromium {
            seq!["-nochromium"@]
        } else {
            seq![]
        };
        let dev: Seq<Seq<char>> = if s.developer_mode {
            seq!["-dev"@]
        } else {
            seq![]
        };
        let tools: Seq<Seq<char>> = if s.tools_mode {
            seq!["-tools"@]
        } else {
            seq![]
        };
        assert(args.deep_view() =~~= base2 + workshop + chromium + dev + tools);
    }
    let ghost base3 = args.deep_view();
    match &settings.custom_launch_options {
        Some(custom) => {
            let mut extra = split_args_quoted(custom.as_str());
            let ghost extrav = extra.deep_view();
            args.append(&mut extra);
            proof {
                assert(args.deep_view() =~~= base3 + extrav);
            }
        },
        None => {
            proof {
                assert(args.deep_view() =~~= base3 + Seq::<Seq<char>>::empty());
            }
        },
    }
    proof {
        assert(args.deep_view() =~~= spec_launch_args(s));
    }
    args
}

/// Keep the first build for each distinct path, in order: how the listed
/// Proton builds are deduplicated.
pub open spec fn dedup_by_path_rec(v: Seq<(Seq<char>, Seq<char>)>, i: int, acc: Seq<
    (Seq<char>, Seq<char>),
>) -> Seq<(Seq<char>, Seq<char>)>
    decreases v.len() - i,
    when 0 <= i
{
    if i >= v.len() {
        acc
    } else if exists|m: int| 0 <= m < i && (#[trigger] v[m]).1 == v[i].1 {
        dedup_by_path_rec(v, i + 1, acc)
    } else {
        dedup_by_path_rec(v, i + 1, acc.push(v[i]))
    }
}

/// Drop every build whose path was already listed, keeping the first.
pub fn dedup_by_path(items: Vec<(String, String)>) -> (r: Vec<(String, String)>)
    ensures
        r.deep_view() == dedup_by_path_rec(items.deep_view(), 0, Seq::<(Seq<char>, Seq<char>)>::empty()),
{
    let ghost v = items.deep_view();
    let mut out: Vec<(String, String)> = Vec::new();
    let mut i: usize = 0;
    proof {
        assert(out.deep_view() =~~= Seq::<(Seq<char>, Seq<char>)>::empty());
    }
    while i < items.len()
        invariant
            i <= items.len(),
            v == items.deep_view(),
            dedup_by_path_rec(v, 0, Seq::<(Seq<char>, Seq<char>)>::empty()) == dedup_by_path_rec(
                v,
                i as int,
                out.deep_view(),
            ),
        decreases items.len() - i,
    {
        let mut seen = false;
        let mut m: usize = 0;
        while m < i
            invariant
                m <= i,
                i < items.len(),
                v == items.deep_view(),
                seen == exists|q: int| 0 <= q < m && (#[trigger] v[q]).1 == v[i as int].1,
            decreases i - m,
        {
            if crate::text::str_eq(items[m].1.as_str(), items[i].1.as_str()) {
                proof {
                    assert(v[m as int].1 == items@[m as int].1@);
                    assert(v[i as int].1 == items@[i as int].1@);
                }
                seen = true;
            }
            proof {
                if !seen {
                    assert(v[m as int].1 == items@[m as int].1@);
                    assert(forall|q: int| 0 <= q < m + 1 ==> (#[trigger] v[q]).1 != v[i as int].1);
                }
            }
            m = m + 1;
        }
        if !seen {
            let ghost prev = out.deep_view();
            let label = items[i].0.clone();
            let path = items[i].1.clone();
            out.push((label, path));
            proof {
                assert(out.deep_view() =~~= prev.push(v[i as int]));
            }
        }
        i = i + 1;
    }
    out
}

} // verus!
