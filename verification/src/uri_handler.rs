use vstd::prelude::*;
use crate::text::{chars_eq, chars_slice, chars_start_with, has_prefix, str_chars};

verus! {

pub const URI_SCHEME: &'static str = "offline-translator://";

/// What a launch URI asks the app to do.
#[derive(Clone, Copy, Debug, PartialEq, Eq, Structural)]
pub enum LaunchIntent {
    LiveCamera,
}

/// `s` up to (not including) its first `?` or `#`.
pub open spec fn before_query(s: Seq<char>) -> Seq<char>
    decreases s.len(),
{
    if s.len() == 0 {
        seq![]
    } else if s[0] == '?' || s[0] == '#' {
        seq![]
    } else {
        seq![s[0]] + before_query(s.drop_first())
    }
}

/// `s` without its trailing slashes.
pub open spec fn trim_trailing_slashes(s: Seq<char>) -> Seq<char>
    decreases s.len(),
{
    if s.len() > 0 && s.last() == '/' {
        trim_trailing_slashes(s.drop_last())
    } else {
        s
    }
}

/// The intent a URI carries: the app's scheme followed by the action
/// `camera`, ignoring a query, a fragment and trailing slashes.
pub open spec fn launch_intent(uri: Seq<char>) -> Option<LaunchIntent> {
    let scheme = URI_SCHEME@;
    if !has_prefix(uri, scheme) {
        None
    } else if trim_trailing_slashes(before_query(uri.skip(scheme.len() as int))) == "camera"@ {
        Some(LaunchIntent::LiveCamera)
    } else {
        None
    }
}

proof fn lemma_before_query_prefix(s: Seq<char>, k: int)
    requires
        0 <= k <= s.len(),
        forall|i: int| 0 <= i < k ==> s[i] != '?' && s[i] != '#',
        k == s.len() || s[k] == '?' || s[k] == '#',
    ensures
        before_query(s) == s.subrange(0, k),
    decreases k,
{
    if k > 0 {
        lemma_before_query_prefix(s.drop_first(), k - 1);
        assert(seq![s[0]] + s.drop_first().subrange(0, k - 1) =~= s.subrange(0, k));
    } else {
        assert(s.subrange(0, 0) =~= Seq::<char>::empty());
    }
}

proof fn lemma_trim_prefix(s: Seq<char>, end: int)
    requires
        0 <= end <= s.len(),
        forall|i: int| end <= i < s.len() ==> s[i] == '/',
    ensures
        trim_trailing_slashes(s) == trim_trailing_slashes(s.subrange(0, end)),
    decreases s.len() - end,
{
    if end < s.len() {
        assert(s.drop_last() =~= s.subrange(0, s.len() - 1));
        lemma_trim_prefix(s.drop_last(), end);
        assert(s.drop_last().subrange(0, end) =~= s.subrange(0, end));
    } else {
        assert(s.subrange(0, end) =~= s);
    }
}

pub fn parse_launch_uri(uri: &str) -> (r: Option<LaunchIntent>)
    ensures
        r == launch_intent(uri@),
{
    let chars = str_chars(uri);
    let scheme = str_chars(URI_SCHEME);
    if !chars_start_with(chars.as_slice(), scheme.as_slice()) {
        return None;
    }
    let rest = chars_slice(chars.as_slice(), scheme.len(), chars.len());
    assert(rest@ =~= uri@.skip(scheme@.len() as int));
    let mut k: usize = 0;
    while k < rest.len() && rest[k] != '?' && rest[k] != '#'
        invariant
            k <= rest@.len(),
            forall|i: int| 0 <= i < k ==> rest@[i] != '?' && rest@[i] != '#',
        decreases rest.len() - k,
    {
        k = k + 1;
    }
    proof {
        lemma_before_query_prefix(rest@, k as int);
    }
    let mut end: usize = k;
    while end > 0 && rest[end - 1] == '/'
        invariant
            end <= k <= rest@.len(),
            trim_trailing_slashes(rest@.subrange(0, k as int)) == trim_trailing_slashes(
                rest@.subrange(0, end as int),
            ),
        decreases end,
    {
        proof {
            let pre = rest@.subrange(0, end as int);
            assert(pre.drop_last() =~= rest@.subrange(0, end - 1));
        }
        end = end - 1;
    }
    let action = chars_slice(rest.as_slice(), 0, end);
    proof {
        let pre = rest@.subrange(0, end as int);
        assert(action@ == pre);
        assert(!(pre.len() > 0 && pre.last() == '/'));
    }
    let camera = str_chars("camera");
    if chars_eq(action.as_slice(), camera.as_slice()) {
        Some(LaunchIntent::LiveCamera)
    } else {
        None
    }
}

/// The intent of the first argument that carries one.
pub open spec fn first_intent(args: Seq<Seq<char>>) -> Option<LaunchIntent>
    decreases args.len(),
{
    if args.len() == 0 {
        None
    } else if launch_intent(args[0]) is Some {
        launch_intent(args[0])
    } else {
        first_intent(args.drop_first())
    }
}

pub open spec fn arg_views(args: Seq<String>) -> Seq<Seq<char>> {
    args.map_values(|a: String| a@)
}

pub fn intent_from_args(args: &[String]) -> (r: Option<LaunchIntent>)
    ensures
        r == first_intent(arg_views(args@)),
{
    let mut i: usize = 0;
    assert(arg_views(args@).skip(0) =~= arg_views(args@));
    while i < args.len()
        invariant
            i <= args@.len(),
            first_intent(arg_views(args@)) == first_intent(arg_views(args@).skip(i as int)),
        decreases args.len() - i,
    {
        let found = parse_launch_uri(args[i].as_str());
        proof {
            let rest = arg_views(args@).skip(i as int);
            assert(rest[0] == args@[i as int]@);
            assert(rest.drop_first() =~= arg_views(args@).skip(i + 1));
        }
        if found.is_some() {
            return found;
        }
        i = i + 1;
    }
    proof {
        assert(arg_views(args@).skip(args@.len() as int).len() == 0);
    }
    None
}

/// Where the shell starts a new process for every URI (everywhere but
/// Lomiri), the URI arrives on the command line and there is nothing to
/// install; the Lomiri hand-off to a running instance is platform glue.
pub fn install(_sink: impl Fn(LaunchIntent) + Send + 'static) {
}

} // verus!
