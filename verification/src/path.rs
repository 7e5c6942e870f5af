//! Paths written with `/`, and the home directory that a leading `~` stands
//! for.

use crate::text::{chars_of, cut, lacks, lemma_cut, lemma_cut_absent, lemma_cut_written};
use vstd::prelude::*;
use vstd::string::*;

verus! {

/// The first component of `path` is `~`.
pub open spec fn starts_with_tilde(path: Seq<char>) -> bool {
    path.len() >= 1 && path[0] == '~' && (path.len() == 1 || path[1] == '/')
}

/// What a piece between two `/` adds to a path: nothing where it is empty or
/// `.`, otherwise itself as one component.
pub open spec fn piece(s: Seq<char>) -> Seq<Seq<char>> {
    if s.len() == 0 || s == seq!['.'] {
        seq![]
    } else {
        seq![s]
    }
}

/// The components of what follows the first component of a path: the pieces
/// between its `/`, without the empty ones and without `.`.
pub open spec fn components(s: Seq<char>) -> Seq<Seq<char>>
    decreases s.len(),
    via components_decreases
{
    match cut(s, '/') {
        Some((head, tail)) => piece(head) + components(tail),
        None => piece(s),
    }
}

#[via_fn]
proof fn components_decreases(s: Seq<char>) {
    lemma_cut(s, '/');
}

/// `buf` with one more component: a `/` goes between them unless `buf` is
/// empty or ends in one.
pub open spec fn push(buf: Seq<char>, component: Seq<char>) -> Seq<char> {
    if buf.len() > 0 && buf.last() != '/' {
        buf + seq!['/'] + component
    } else {
        buf + component
    }
}

/// `buf` with all of `components` pushed, first to last.
pub open spec fn push_all(buf: Seq<char>, components: Seq<Seq<char>>) -> Seq<char>
    decreases components.len(),
{
    if components.len() == 0 {
        buf
    } else {
        push_all(push(buf, components[0]), components.drop_first())
    }
}

/// `path` with a leading `~` component replaced by `home`: the components
/// that follow the `~` are pushed onto `home` one by one. A path that does
/// not start with `~` stays as it is written.
pub open spec fn expand_tilde(path: Seq<char>, home: Seq<char>) -> Seq<char> {
    if starts_with_tilde(path) {
        push_all(home, components(path.skip(1)))
    } else {
        path
    }
}

proof fn lemma_push_piece(buf: Seq<char>, head: Seq<char>, rest: Seq<Seq<char>>)
    ensures
        push_all(buf, piece(head) + rest) == push_all(
            if piece(head).len() == 0 {
                buf
            } else {
                push(buf, head)
            },
            rest,
        ),
{
    if piece(head).len() == 0 {
        assert(piece(head) + rest =~= rest);
    } else {
        assert((piece(head) + rest).drop_first() =~= rest);
    }
}

/// A single name below `~` becomes that name below `home`, for a home
/// directory that is not empty and does not end in `/`.
pub proof fn lemma_expand_child(child: Seq<char>, home: Seq<char>)
    requires
        lacks(child, '/'),
        child.len() > 0,
        child != seq!['.'],
        home.len() > 0,
        home.last() != '/',
    ensures
        expand_tilde(seq!['~', '/'] + child, home) == home + seq!['/'] + child,
{
    let path = seq!['~', '/'] + child;
    let rest = path.skip(1);
    assert(rest =~= Seq::<char>::empty() + seq!['/'] + child);
    lemma_cut_written(Seq::<char>::empty(), '/', child);
    lemma_cut_absent(child, '/');
    assert(components(child) == piece(child));
    assert(components(rest) == piece(Seq::<char>::empty()) + components(child));
    assert(components(rest) =~= seq![child]);
    assert(seq![child].drop_first() =~= Seq::<Seq<char>>::empty());
    assert(push_all(push(home, child), Seq::<Seq<char>>::empty()) == push(home, child));
}

/// A path whose first component is not `~` is left as it is written.
pub proof fn lemma_expand_leaves_other_paths(path: Seq<char>, home: Seq<char>)
    requires
        !starts_with_tilde(path),
    ensures
        expand_tilde(path, home) == path,
{
}

/// `~` alone is the home directory.
pub proof fn lemma_expand_tilde_alone(home: Seq<char>)
    ensures
        expand_tilde(seq!['~'], home) == home,
{
    let rest = seq!['~'].skip(1);
    assert(rest =~= Seq::<char>::empty());
    lemma_cut_absent(rest, '/');
}

proof fn lemma_push_all_extends(buf: Seq<char>, components: Seq<Seq<char>>)
    ensures
        push_all(buf, components).len() >= buf.len(),
        forall|i: int| 0 <= i < buf.len() ==> push_all(buf, components)[i] == buf[i],
    decreases components.len(),
{
    if components.len() > 0 {
        let next = push(buf, components[0]);
        lemma_push_all_extends(next, components.drop_first());
        assert forall|i: int| 0 <= i < buf.len() implies push_all(buf, components)[i]
            == buf[i] by {
            assert(next[i] == buf[i]);
        }
    }
}

/// Expanding a path that has been expanded changes nothing more, for a home
/// directory that is not empty and does not itself start with `~`.
pub proof fn lemma_expand_twice(path: Seq<char>, home: Seq<char>)
    requires
        home.len() > 0,
        !starts_with_tilde(home),
    ensures
        expand_tilde(expand_tilde(path, home), home) == expand_tilde(path, home),
{
    if starts_with_tilde(path) {
        lemma_push_all_extends(home, components(path.skip(1)));
    }
}

fn tilde_comes_first(chars: &Vec<char>) -> (yes: bool)
    ensures
        yes == starts_with_tilde(chars@),
{
    let n: usize = chars.len();
    n >= 1 && chars[0] == '~' && (n == 1 || chars[1] == '/')
}

/// Whether the first component of `path` is `~`, so that expanding the path
/// takes a home directory.
pub fn begins_with_tilde(path: &str) -> (yes: bool)
    ensures
        yes == starts_with_tilde(path@),
{
    let chars = chars_of(path);
    tilde_comes_first(&chars)
}

/// Replaces a leading `~` component of `path` by `home_dir`.
pub fn expand_path(path: &str, home_dir: &str) -> (expanded: String)
    ensures
        expanded@ == expand_tilde(path@, home_dir@),
{
    let chars = chars_of(path);
    let n: usize = chars.len();
    if !tilde_comes_first(&chars) {
        return String::from_str(path);
    }
    let home = chars_of(home_dir);
    let mut out = String::from_str(home_dir);
    let mut need_sep: bool = home.len() > 0 && home[home.len() - 1] != '/';
    let mut start: usize = 1;
    while start < n
        invariant
            chars@ == path@,
            n == chars@.len(),
            1 <= start <= n,
            need_sep == (out@.len() > 0 && out@.last() != '/'),
            push_all(out@, components(chars@.skip(start as int))) == expand_tilde(
                path@,
                home_dir@,
            ),
        decreases n - start,
    {
        let mut end: usize = start;
        while end < n && chars[end] != '/'
            invariant
                n == chars@.len(),
                start <= end <= n,
                forall|j: int| start <= j < end ==> chars@[j] != '/',
            decreases n - end,
        {
            end += 1;
        }
        let ghost rest = chars@.skip(start as int);
        let ghost head = chars@.subrange(start as int, end as int);
        let ghost after = if end < n {
            chars@.skip(end + 1)
        } else {
            Seq::<char>::empty()
        };
        proof {
            assert(lacks(head, '/'));
            if end < n {
                assert(rest =~= head + seq!['/'] + after);
                lemma_cut_written(head, '/', after);
            } else {
                assert(rest =~= head);
                lemma_cut_absent(rest, '/');
                lemma_cut_absent(after, '/');
                assert(piece(head) + components(after) =~= piece(head));
            }
            assert(components(rest) == piece(head) + components(after));
            lemma_push_piece(out@, head, components(after));
        }
        let is_dot: bool = end - start == 1 && chars[start] == '.';
        proof {
            if head.len() > 0 {
                assert(head[0] == chars@[start as int]);
            }
            assert(is_dot <==> head =~= seq!['.']);
        }
        if end > start && !is_dot {
            if need_sep {
                proof {
                    reveal_strlit("/");
                    assert("/"@ =~= seq!['/']);
                }
                out.append("/");
            }
            out.append(path.substring_char(start, end));
            need_sep = true;
        }
        if end < n {
            start = end + 1;
        } else {
            start = n;
            assert(chars@.skip(n as int) =~= after);
        }
    }
    proof {
        assert(chars@.skip(n as int) =~= Seq::<char>::empty());
        lemma_cut_absent(chars@.skip(n as int), '/');
    }
    out
}

} // verus!
