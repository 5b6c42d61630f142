use vstd::prelude::*;
use crate::events::AppPaths;
use crate::text::{chars_eq, parse_u32, parsed_u32, push_all, str_chars, string_from_chars};

verus! {

// ---------------------------------------------------------------------------
// Start-up: where the app keeps its files, and the command-line modes that
// run without a window.
// ---------------------------------------------------------------------------

/// The app's identity; its directories are named after it.
pub const APP_NAME: &'static str = "dev.davidv.translator";

/// `PathBuf::join` on Unix: an absolute `rel` replaces `base`; otherwise
/// a `/` separates them unless `base` is empty or already ends in one.
pub open spec fn unix_join(base: Seq<char>, rel: Seq<char>) -> Seq<char> {
    if rel.len() > 0 && rel[0] == '/' {
        rel
    } else if base.len() == 0 || base.last() == '/' {
        base + rel
    } else {
        base + seq!['/'] + rel
    }
}

pub fn join_unix(base: &str, rel: &str) -> (r: String)
    ensures
        r@ == unix_join(base@, rel@),
{
    let b = str_chars(base);
    let r = str_chars(rel);
    if r.len() > 0 && r[0] == '/' {
        return string_from_chars(&r);
    }
    let mut out = b;
    if out.len() > 0 && out[out.len() - 1] != '/' {
        out.push('/');
    }
    push_all(&mut out, r.as_slice());
    string_from_chars(&out)
}

/// The home directory assumed for a user when none is set.
pub open spec fn fallback_home_for(username: Seq<char>) -> Seq<char> {
    "/home/"@ + username
}

pub fn fallback_home(username: &str) -> (r: String)
    ensures
        r@ == fallback_home_for(username@),
{
    let mut out = str_chars("/home/");
    push_all(&mut out, str_chars(username).as_slice());
    string_from_chars(&out)
}

/// The XDG directories of the app on Unix: data under `XDG_DATA_HOME` (or
/// `~/.local/share`), configuration under `XDG_CONFIG_HOME` (or `~/.config`),
/// each in a directory named after the app.
pub open spec fn unix_paths(
    home: Seq<char>,
    xdg_data_home: Option<Seq<char>>,
    xdg_config_home: Option<Seq<char>>,
) -> (Seq<char>, Seq<char>) {
    let data_root = match xdg_data_home {
        Some(d) => d,
        None => unix_join(home, ".local/share"@),
    };
    let config_root = match xdg_config_home {
        Some(c) => c,
        None => unix_join(home, ".config"@),
    };
    (unix_join(data_root, APP_NAME@), unix_join(config_root, APP_NAME@))
}

pub fn unix_app_paths(home: &str, xdg_data_home: Option<String>, xdg_config_home: Option<String>) -> (r:
    AppPaths)
    ensures
        (r.data@, r.config@) == unix_paths(
            home@,
            crate::document::text_of(xdg_data_home),
            crate::document::text_of(xdg_config_home),
        ),
{
    let data_root = match xdg_data_home {
        Some(d) => d,
        None => join_unix(home, ".local/share"),
    };
    let config_root = match xdg_config_home {
        Some(c) => c,
        None => join_unix(home, ".config"),
    };
    AppPaths {
        data: join_unix(data_root.as_str(), APP_NAME),
        config: join_unix(config_root.as_str(), APP_NAME),
    }
}

/// What the command line asks for.
#[derive(Clone, Debug)]
pub enum CliMode {
    /// Time the live OCR pipeline on one image.
    BenchLive { image: String, from: String, to: String, max_side: u32 },
    /// Translate one document and write it beside the input.
    TranslateDoc { input: String, from: String, to: String, pdf_images: bool, output: String },
    /// Start the app.
    Gui,
}

pub open spec fn arg_views(args: Seq<String>) -> Seq<Seq<char>> {
    args.map_values(|a: String| a@)
}

/// The index of the first argument equal to `flag`.
pub open spec fn first_flag(args: Seq<Seq<char>>, flag: Seq<char>) -> Option<int> {
    if exists|i: int| 0 <= i < args.len() && args[i] == flag && forall|j: int|
        0 <= j < i ==> args[j] != flag {
        Some(
            choose|i: int|
                0 <= i < args.len() && args[i] == flag && forall|j: int|
                    0 <= j < i ==> args[j] != flag,
        )
    } else {
        None
    }
}

/// The argument at `i`, or `default` past the end.
pub open spec fn arg_or(args: Seq<Seq<char>>, i: int, default: Seq<char>) -> Seq<char> {
    if 0 <= i < args.len() {
        args[i]
    } else {
        default
    }
}

pub open spec fn bench_max_side(args: Seq<Seq<char>>, i: int) -> u32 {
    if 0 <= i < args.len() {
        match parsed_u32(args[i]) {
            Some(n) => n,
            None => 1000,
        }
    } else {
        1000
    }
}

/// The output a document is translated to: beside the input, named after
/// the pair.
pub open spec fn doc_output(input: Seq<char>, from: Seq<char>, to: Seq<char>) -> Seq<char> {
    input + "."@ + from + "-"@ + to + ".out"@
}

/// `--bench-live IMAGE [FROM [TO [MAX_SIDE]]]` (when live OCR is built in)
/// wins over `--translate-doc INPUT [FROM [TO]] [--pdf-images]`; the pair
/// defaults to English to Dutch and the side to 1000 pixels.
pub open spec fn cli_mode_for(args: Seq<Seq<char>>, live: bool, r: CliMode) -> bool {
    if live && first_flag(args, "--bench-live"@) is Some {
        let p = first_flag(args, "--bench-live"@)->0;
        r matches CliMode::BenchLive { image, from, to, max_side } && image@ == arg_or(
            args,
            p + 1,
            seq![],
        ) && from@ == arg_or(args, p + 2, "en"@) && to@ == arg_or(args, p + 3, "nl"@) && max_side
            == bench_max_side(args, p + 4)
    } else if first_flag(args, "--translate-doc"@) is Some {
        let p = first_flag(args, "--translate-doc"@)->0;
        let input = arg_or(args, p + 1, seq![]);
        let from = arg_or(args, p + 2, "en"@);
        let to = arg_or(args, p + 3, "nl"@);
        r matches CliMode::TranslateDoc { input: i, from: f, to: t, pdf_images, output } && i@
            == input && f@ == from && t@ == to && pdf_images == args.contains("--pdf-images"@)
            && output@ == doc_output(input, from, to)
    } else {
        r is Gui
    }
}

fn find_flag(args: &[String], flag: &str) -> (r: Option<usize>)
    ensures
        r matches Some(i) ==> i < args@.len() && first_flag(arg_views(args@), flag@) == Some(i as int),
        r is None ==> first_flag(arg_views(args@), flag@) is None,
{
    let wanted = str_chars(flag);
    let ghost v = arg_views(args@);
    let mut i: usize = 0;
    while i < args.len()
        invariant
            i <= args@.len(),
            v == arg_views(args@),
            wanted@ == flag@,
            forall|j: int| 0 <= j < i ==> v[j] != flag@,
        decreases args.len() - i,
    {
        if chars_eq(str_chars(args[i].as_str()).as_slice(), wanted.as_slice()) {
            proof {
                assert(v[i as int] == flag@);
                let k = choose|k: int|
                    0 <= k < v.len() && v[k] == flag@ && forall|j: int| 0 <= j < k ==> v[j] != flag@;
                if k < i {
                    assert(v[k] != flag@);
                } else if k > i {
                    assert(v[i as int] != flag@);
                }
            }
            return Some(i);
        }
        i = i + 1;
    }
    None
}

fn arg_after(args: &[String], p: usize, k: usize, default: &str) -> (r: String)
    requires
        p < args@.len(),
    ensures
        r@ == arg_or(arg_views(args@), p + k, default@),
{
    if k < args.len() - p {
        string_from_chars(&str_chars(args[p + k].as_str()))
    } else {
        string_from_chars(&str_chars(default))
    }
}

pub fn cli_mode(args: &[String], live: bool) -> (r: CliMode)
    ensures
        cli_mode_for(arg_views(args@), live, r),
{
    let ghost v = arg_views(args@);
    proof {
        reveal_strlit("");
    }
    if live {
        match find_flag(args, "--bench-live") {
            Some(p) => {
                let image = arg_after(args, p, 1, "");
                assert(image@ == arg_or(v, p + 1, seq![]));
                let from = arg_after(args, p, 2, "en");
                let to = arg_after(args, p, 3, "nl");
                assert(4 < args@.len() - p ==> v[p + 4] == args@[p + 4]@);
                let max_side = if 4 < args.len() - p {
                    match parse_u32(args[p + 4].as_str()) {
                        Some(n) => n,
                        None => 1000,
                    }
                } else {
                    1000
                };
                return CliMode::BenchLive { image, from, to, max_side };
            },
            None => {},
        }
    }
    match find_flag(args, "--translate-doc") {
        Some(p) => {
            let input = arg_after(args, p, 1, "");
            assert(input@ == arg_or(v, p + 1, seq![]));
            let from = arg_after(args, p, 2, "en");
            let to = arg_after(args, p, 3, "nl");
            let pdf_images = match find_flag(args, "--pdf-images") {
                Some(_) => true,
                None => false,
            };
            proof {
                let flag = "--pdf-images"@;
                if first_flag(v, flag) is Some {
                    let k = first_flag(v, flag)->0;
                    assert(v[k] == flag);
                    assert(v.contains(flag));
                } else if v.contains(flag) {
                    let k = choose|k: int| 0 <= k < v.len() && v[k] == flag;
                    let m = first_index_of(v, flag, k);
                    assert(first_flag(v, flag) is Some);
                }
            }
            let mut output = str_chars(input.as_str());
            push_all(&mut output, str_chars(".").as_slice());
            push_all(&mut output, str_chars(from.as_str()).as_slice());
            push_all(&mut output, str_chars("-").as_slice());
            push_all(&mut output, str_chars(to.as_str()).as_slice());
            push_all(&mut output, str_chars(".out").as_slice());
            let output = string_from_chars(&output);
            CliMode::TranslateDoc { input, from, to, pdf_images, output }
        },
        None => CliMode::Gui,
    }
}

/// An occurrence of `flag` at `k` means there is a first one.
proof fn first_index_of(v: Seq<Seq<char>>, flag: Seq<char>, k: int) -> (m: int)
    requires
        0 <= k < v.len(),
        v[k] == flag,
    ensures
        0 <= m <= k,
        v[m] == flag,
        forall|j: int| 0 <= j < m ==> v[j] != flag,
    decreases k,
{
    if exists|j: int| 0 <= j < k && v[j] == flag {
        let j = choose|j: int| 0 <= j < k && v[j] == flag;
        first_index_of(v, flag, j)
    } else {
        k
    }
}

} // verus!
