//! Paths as texts.
//!
//! A path is a list of components with slashes between them. Neither a
//! component that is empty nor one that is a single dot counts, but for a
//! single dot at the very front, which stands for the current directory, and a
//! slash there, which stands for the root.
use vstd::prelude::*;
use crate::text;

verus! {

broadcast use vstd::seq::group_seq_axioms;

/// A path below a directory. A path from the root stands for itself, and so
/// does one below nothing.
pub open spec fn joined(dir: Seq<char>, name: Seq<char>) -> Seq<char> {
    if dir.len() == 0 || text::begins(name, "/"@) {
        name
    } else if dir.last() == '/' {
        dir + name
    } else {
        dir + "/"@ + name
    }
}

/// A path below a directory.
pub fn join(dir: &str, name: &str) -> (path: String)
    ensures
        path@ == joined(dir@, name@),
{
    let len: usize = dir.unicode_len();
    if len == 0 || text::starts_with(name, "/") {
        return name.to_owned();
    }
    let mut path = dir.to_owned();
    if dir.get_char(len - 1) != '/' {
        path.push_str("/");
    }
    path.push_str(name);
    path
}

/// A path without the slashes it ends in.
pub open spec fn without_slashes(path: Seq<char>) -> Seq<char>
    decreases path.len(),
{
    if path.len() > 0 && path.last() == '/' {
        without_slashes(path.drop_last())
    } else {
        path
    }
}

/// Where the last slash of a path stands; before it where there is none.
pub open spec fn last_slash(path: Seq<char>) -> int
    decreases path.len(),
{
    if path.len() == 0 {
        -1
    } else if path.last() == '/' {
        path.len() - 1
    } else {
        last_slash(path.drop_last())
    }
}

/// How long the front of a path is that stands for the root or the current
/// directory.
pub open spec fn head(path: Seq<char>) -> nat {
    if path.len() > 0 && (path[0] == '/' || path[0] == '.' && (path.len() == 1 || path[1] == '/')) {
        1
    } else {
        0
    }
}

/// Whether a component does not count.
pub open spec fn idle(part: Seq<char>) -> bool {
    part.len() == 0 || part == seq!['.']
}

/// The last component of a path, behind its first `head` characters.
pub open spec fn last_part(path: Seq<char>, head: nat) -> Seq<char> {
    let body = path.skip(head as int);
    body.skip(last_slash(body) + 1)
}

/// A path without its last component and the slash before it.
pub open spec fn stem(path: Seq<char>, head: nat) -> Seq<char> {
    let at = last_slash(path.skip(head as int));
    path.take(head + if at < 0 {
        0
    } else {
        at
    })
}

/// A path without the components at its end that do not count.
pub open spec fn trimmed(path: Seq<char>, head: nat) -> Seq<char>
    decreases path.len(),
    via trimmed_shrinks
{
    if path.len() > head && idle(last_part(path, head)) {
        trimmed(stem(path, head), head)
    } else {
        path
    }
}

#[via_fn]
proof fn trimmed_shrinks(path: Seq<char>, head: nat) {
    if path.len() > head {
        last_slash_within(path.skip(head as int));
    }
}

proof fn last_slash_within(path: Seq<char>)
    ensures
        -1 <= last_slash(path) < path.len(),
        last_slash(path) >= 0 ==> path[last_slash(path)] == '/',
        forall|k: int| last_slash(path) < k < path.len() ==> path[k] != '/',
    decreases path.len(),
{
    if path.len() > 0 && path.last() != '/' {
        let front = path.drop_last();
        last_slash_within(front);
        assert forall|k: int| last_slash(path) < k < path.len() implies path[k] != '/' by {
            if k < path.len() - 1 {
                assert(path[k] == front[k]);
            }
        }
    }
}

/// The directory that a path lies in: none for the root or no path at all.
pub open spec fn parent_of(path: Seq<char>) -> Option<Seq<char>> {
    let own = trimmed(path, head(path));
    if own.len() > head(path) {
        Some(trimmed(stem(own, head(path)), head(path)))
    } else if own == seq!['.'] {
        Some(Seq::empty())
    } else {
        None
    }
}

fn head_of(path: &Vec<char>) -> (len: usize)
    ensures
        len == head(path@),
        len <= path@.len(),
{
    if path.len() > 0 && (path[0] == '/' || path[0] == '.' && (path.len() == 1 || path[1] == '/')) {
        1
    } else {
        0
    }
}

/// Where the last component of the first part of a path starts.
fn part_start(path: &Vec<char>, head: usize, end: usize) -> (start: usize)
    requires
        head < end <= path@.len(),
    ensures
        head <= start <= end,
        start == head + last_slash(path@.subrange(head as int, end as int)) + 1,
{
    let mut start: usize = end;
    let ghost body = path@.subrange(head as int, end as int);
    assert(body.take(body.len() as int) =~= body);
    while start > head
        invariant
            head <= start <= end <= path@.len(),
            body == path@.subrange(head as int, end as int),
            last_slash(body) == last_slash(body.take(start - head)),
        decreases start,
    {
        assert(body.take(start - head).last() == path@[start - 1]);
        if path[start - 1] == '/' {
            return start;
        }
        assert(body.take(start - head).drop_last() =~= body.take(start - 1 - head));
        start = start - 1;
    }
    start
}

/// The length of the first part of a path without the components at its end
/// that do not count.
fn trimmed_end(path: &Vec<char>, head: usize, from: usize) -> (end: usize)
    requires
        from <= path@.len(),
    ensures
        end <= from,
        path@.take(end as int) == trimmed(path@.take(from as int), head as nat),
{
    let mut end: usize = from;
    while end > head
        invariant
            end <= from <= path@.len(),
            trimmed(path@.take(from as int), head as nat) == trimmed(path@.take(end as int), head as nat),
        decreases end,
    {
        let ghost here = path@.take(end as int);
        let start: usize = part_start(path, head, end);
        assert(here.skip(head as int) =~= path@.subrange(head as int, end as int));
        assert(last_part(here, head as nat) =~= path@.subrange(start as int, end as int));
        if start < end && (path[start] != '.' || start + 1 < end) {
            assert(path@.subrange(start as int, end as int)[0] == path@[start as int]);
            return end;
        }
        if start < end {
            assert(path@.subrange(start as int, end as int) =~= seq!['.']);
        }
        proof {
            last_slash_within(here.skip(head as int));
        }
        let shorter: usize = if start > head {
            start - 1
        } else {
            head
        };
        assert(stem(here, head as nat) =~= path@.take(shorter as int));
        end = shorter;
    }
    end
}

/// The directory that a path lies in.
pub fn parent(path: &str) -> (dir: Option<String>)
    ensures
        text::opt_text(dir) == parent_of(path@),
{
    let chars = text::chars_of(path);
    let len: usize = chars.len();
    assert(chars@.take(len as int) =~= path@);
    let head: usize = head_of(&chars);
    let own: usize = trimmed_end(&chars, head, len);
    let ghost here = chars@.take(own as int);
    if own > head {
        let start: usize = part_start(&chars, head, own);
        assert(here.skip(head as int) =~= chars@.subrange(head as int, own as int));
        let before: usize = if start > head {
            start - 1
        } else {
            head
        };
        assert(stem(here, head as nat) =~= chars@.take(before as int));
        let end: usize = trimmed_end(&chars, head, before);
        let dir = text::string_between(&chars, 0, end);
        assert(dir@ =~= chars@.take(end as int));
        return Some(dir);
    }
    if own == 1 && chars[0] == '.' {
        assert(here =~= seq!['.']);
        let nothing = String::new();
        assert(nothing@ =~= Seq::<char>::empty());
        return Some(nothing);
    }
    None
}

/// Where the first slash of a path stands; behind it where there is none.
pub open spec fn first_slash(path: Seq<char>) -> int
    decreases path.len(),
{
    if path.len() == 0 || path[0] == '/' {
        0
    } else {
        1 + first_slash(path.skip(1))
    }
}

/// The first component of a path.
pub open spec fn first_part(path: Seq<char>) -> Seq<char> {
    path.take(first_slash(path))
}

/// A path behind its first component and the slash after it.
pub open spec fn behind_first(path: Seq<char>) -> Seq<char> {
    if first_slash(path) < path.len() {
        path.skip(first_slash(path) + 1)
    } else {
        Seq::empty()
    }
}

proof fn first_slash_within(path: Seq<char>)
    ensures
        0 <= first_slash(path) <= path.len(),
        first_slash(path) < path.len() ==> path[first_slash(path)] == '/',
        forall|k: int| 0 <= k < first_slash(path) ==> path[k] != '/',
        path.len() > 0 ==> behind_first(path).len() < path.len(),
    decreases path.len(),
{
    if path.len() > 0 && path[0] != '/' {
        first_slash_within(path.skip(1));
        assert forall|k: int| 0 <= k < first_slash(path) implies path[k] != '/' by {
            if k > 0 {
                assert(path[k] == path.skip(1)[k - 1]);
            }
        }
    }
}

/// A path without the components at its front that do not count.
pub open spec fn leading(path: Seq<char>) -> Seq<char>
    decreases path.len(),
    via leading_shrinks
{
    if path.len() > 0 && idle(first_part(path)) {
        leading(behind_first(path))
    } else {
        path
    }
}

#[via_fn]
proof fn leading_shrinks(path: Seq<char>) {
    first_slash_within(path);
}

/// What of a path lies behind the components of another.
pub open spec fn behind(dir: Seq<char>, path: Seq<char>) -> Option<Seq<char>>
    decreases dir.len(),
    via behind_shrinks
{
    let d = leading(dir);
    let p = leading(path);
    if d.len() == 0 {
        Some(p)
    } else if p.len() > 0 && first_part(d) == first_part(p) {
        behind(behind_first(d), behind_first(p))
    } else {
        None
    }
}

#[via_fn]
proof fn behind_shrinks(dir: Seq<char>, path: Seq<char>) {
    leading_within(dir);
    first_slash_within(leading(dir));
}

proof fn leading_within(path: Seq<char>)
    ensures
        leading(path).len() <= path.len(),
    decreases path.len(),
{
    if path.len() > 0 && idle(first_part(path)) {
        first_slash_within(path);
        leading_within(behind_first(path));
    }
}

/// A path relative to a directory that it lies below.
pub open spec fn below(dir: Seq<char>, path: Seq<char>) -> Option<Seq<char>> {
    if dir.len() == 0 {
        Some(trimmed(path, head(path)))
    } else if head(dir) == head(path) && (head(dir) == 1 ==> dir[0] == path[0]) {
        match behind(dir.skip(head(dir) as int), path.skip(head(path) as int)) {
            Some(rest) => Some(trimmed(rest, 0)),
            None => None,
        }
    } else {
        None
    }
}

/// Where the first component of what is left of a path ends.
fn part_end(path: &Vec<char>, from: usize) -> (end: usize)
    requires
        from <= path@.len(),
    ensures
        from <= end <= path@.len(),
        end == from + first_slash(path@.skip(from as int)),
{
    let mut end: usize = from;
    while end < path.len() && path[end] != '/'
        invariant
            from <= end <= path@.len(),
            first_slash(path@.skip(from as int)) == end - from + first_slash(path@.skip(end as int)),
        decreases path@.len() - end,
    {
        assert(path@.skip(end as int).skip(1) =~= path@.skip(end + 1));
        end = end + 1;
    }
    end
}

/// Where what is left of a path goes on once its first component is over.
fn next_part(path: &Vec<char>, end: usize) -> (next: usize)
    requires
        end <= path@.len(),
    ensures
        end <= next <= path@.len(),
        next == (if end < path@.len() {
            end + 1
        } else {
            end as int
        }),
{
    if end < path.len() {
        end + 1
    } else {
        end
    }
}

fn leading_start(path: &Vec<char>, from: usize) -> (start: usize)
    requires
        from <= path@.len(),
    ensures
        from <= start <= path@.len(),
        path@.skip(start as int) == leading(path@.skip(from as int)),
{
    let mut start: usize = from;
    while start < path.len()
        invariant
            from <= start <= path@.len(),
            leading(path@.skip(from as int)) == leading(path@.skip(start as int)),
        decreases path@.len() - start,
    {
        let ghost here = path@.skip(start as int);
        let end: usize = part_end(path, start);
        assert(first_part(here) =~= path@.subrange(start as int, end as int));
        if start < end && (path[start] != '.' || start + 1 < end) {
            assert(first_part(here)[0] == path@[start as int]);
            return start;
        }
        if start < end {
            assert(first_part(here) =~= seq!['.']);
        }
        let next: usize = next_part(path, end);
        assert(behind_first(here) =~= path@.skip(next as int));
        start = next;
    }
    start
}

/// Whether two components are the same.
fn same_part(a: &Vec<char>, from: usize, to: usize, b: &Vec<char>, start: usize, end: usize) -> (same: bool)
    requires
        from <= to <= a@.len(),
        start <= end <= b@.len(),
    ensures
        same == (a@.subrange(from as int, to as int) == b@.subrange(start as int, end as int)),
{
    let ghost one = a@.subrange(from as int, to as int);
    let ghost two = b@.subrange(start as int, end as int);
    if to - from != end - start {
        assert(one.len() != two.len());
        return false;
    }
    let mut k: usize = 0;
    while k < to - from
        invariant
            from <= to <= a@.len(),
            start <= end <= b@.len(),
            to - from == end - start,
            k <= to - from,
            one == a@.subrange(from as int, to as int),
            two == b@.subrange(start as int, end as int),
            forall|i: int| 0 <= i < k ==> one[i] == two[i],
        decreases to - from - k,
    {
        if a[from + k] != b[start + k] {
            assert(one[k as int] != two[k as int]);
            return false;
        }
        assert(one[k as int] == two[k as int]);
        k = k + 1;
    }
    assert(one =~= two);
    true
}

/// Where what lies behind the components of another path starts.
fn behind_start(dir: &Vec<char>, from: usize, path: &Vec<char>, start: usize) -> (rest: Option<usize>)
    requires
        from <= dir@.len(),
        start <= path@.len(),
    ensures
        match rest {
            Some(rest) => rest <= path@.len() && behind(dir@.skip(from as int), path@.skip(start as int)) == Some(
                path@.skip(rest as int),
            ),
            None => behind(dir@.skip(from as int), path@.skip(start as int)) is None,
        },
    decreases dir@.len() - from,
{
    let d: usize = leading_start(dir, from);
    let p: usize = leading_start(path, start);
    if d == dir.len() {
        return Some(p);
    }
    if p == path.len() {
        return None;
    }
    let d_end: usize = part_end(dir, d);
    let p_end: usize = part_end(path, p);
    assert(first_part(dir@.skip(d as int)) =~= dir@.subrange(d as int, d_end as int));
    assert(first_part(path@.skip(p as int)) =~= path@.subrange(p as int, p_end as int));
    if !same_part(dir, d, d_end, path, p, p_end) {
        return None;
    }
    let d_next: usize = next_part(dir, d_end);
    let p_next: usize = next_part(path, p_end);
    assert(behind_first(dir@.skip(d as int)) =~= dir@.skip(d_next as int));
    assert(behind_first(path@.skip(p as int)) =~= path@.skip(p_next as int));
    proof {
        first_slash_within(dir@.skip(d as int));
    }
    behind_start(dir, d_next, path, p_next)
}

/// A path relative to a directory, where it lies below it.
pub fn strip(dir: &str, path: &str) -> (relative: Option<String>)
    ensures
        text::opt_text(relative) == below(dir@, path@),
{
    let d = text::chars_of(dir);
    let p = text::chars_of(path);
    let len: usize = p.len();
    let p_head: usize = head_of(&p);
    if d.len() == 0 {
        assert(p@.take(len as int) =~= path@);
        let end: usize = trimmed_end(&p, p_head, len);
        let whole = text::string_between(&p, 0, end);
        assert(whole@ =~= p@.take(end as int));
        return Some(whole);
    }
    let d_head: usize = head_of(&d);
    if d_head != p_head || d_head == 1 && d[0] != p[0] {
        return None;
    }
    match behind_start(&d, d_head, &p, p_head) {
        None => None,
        Some(start) => {
            let rest = text::string_between(&p, start, len);
            assert(rest@ =~= p@.skip(start as int));
            let chars = text::chars_of(rest.as_str());
            let full: usize = chars.len();
            assert(chars@.take(full as int) =~= rest@);
            let end: usize = trimmed_end(&chars, 0, full);
            let relative = text::string_between(&chars, 0, end);
            assert(relative@ =~= chars@.take(end as int));
            Some(relative)
        },
    }
}

// ---------------------------------------------------------------------------
// Laws
// ---------------------------------------------------------------------------

/// Whether a text is a single component that counts.
pub open spec fn plain(name: Seq<char>) -> bool {
    !idle(name) && forall|k: int| 0 <= k < name.len() ==> name[k] != '/'
}

proof fn last_slash_at(path: Seq<char>, at: int)
    requires
        -1 <= at < path.len(),
        at >= 0 ==> path[at] == '/',
        forall|k: int| at < k < path.len() ==> path[k] != '/',
    ensures
        last_slash(path) == at,
{
    last_slash_within(path);
    let found = last_slash(path);
    if found < at {
        assert(path[at] != '/');
    }
}

proof fn first_slash_at(path: Seq<char>, at: int)
    requires
        0 <= at <= path.len(),
        at < path.len() ==> path[at] == '/',
        forall|k: int| 0 <= k < at ==> path[k] != '/',
    ensures
        first_slash(path) == at,
{
    first_slash_within(path);
    let found = first_slash(path);
    if found < at {
        assert(path[found] != '/');
    }
}

/// A directory and a path below it begin alike.
proof fn joined_head(dir: Seq<char>, name: Seq<char>)
    requires
        plain(name),
    ensures
        head(name) == 0,
        dir.len() > 0 ==> head(joined(dir, name)) == head(dir),
        dir.len() > 0 ==> joined(dir, name).len() > dir.len() && joined(dir, name).take(dir.len() as int) == dir,
        dir.len() > 0 && dir.last() == '/' ==> joined(dir, name) == dir + name,
        dir.len() > 0 && dir.last() != '/' ==> joined(dir, name) == dir + seq!['/'] + name,
        dir.len() == 0 ==> joined(dir, name) == name,
{
    reveal_strlit("/");
    assert("/"@ =~= seq!['/']);
    if name.len() == 1 && name[0] == '.' {
        assert(name =~= seq!['.']);
    }
    assert(!text::begins(name, "/"@)) by {
        if text::begins(name, "/"@) {
            assert(name.subrange(0, 1)[0] == '/');
        }
    }
    assert(joined(dir, name).take(dir.len() as int) =~= dir);
}

/// What a component that counts is added to ends in that component.
proof fn joined_part(dir: Seq<char>, name: Seq<char>)
    requires
        plain(name),
    ensures
        ({
            let path = joined(dir, name);
            let h = head(path);
            &&& path.len() > h
            &&& last_part(path, h) == name
            &&& trimmed(path, h) == path
            &&& dir.len() > 0 && dir.last() != '/' ==> stem(path, h) == dir
            &&& dir.len() > h && dir.last() == '/' ==> stem(path, h) == dir.drop_last()
            &&& dir.len() == h ==> stem(path, h) == dir
        }),
{
    joined_head(dir, name);
    let path = joined(dir, name);
    let h = head(path) as int;
    let body = path.skip(h);
    let from = path.len() - name.len();
    assert(path.skip(from) =~= name);
    assert(from > 0 ==> path[from - 1] == '/');
    assert(h <= from);
    let at = from - h - 1;
    if at >= 0 {
        assert(body[at] == path[from - 1]);
    }
    assert forall|k: int| at < k < body.len() implies body[k] != '/' by {
        assert(body[k] == path.skip(from)[k - at - 1]);
    }
    last_slash_at(body, at);
    assert(body.skip(at + 1) =~= path.skip(from));
    assert(stem(path, h as nat) == path.take(if at < 0 {
        h
    } else {
        from - 1
    }));
    if dir.len() > 0 && dir.last() != '/' {
        assert(stem(path, h as nat) =~= dir);
    } else if dir.len() > h {
        assert(stem(path, h as nat) =~= dir.drop_last());
    } else {
        assert(stem(path, h as nat) =~= dir);
    }
}

/// A path made of a directory and a single component lies in that directory.
pub proof fn law_a_joined_path_lies_in_its_directory(dir: Seq<char>, name: Seq<char>)
    requires
        plain(name),
    ensures
        parent_of(joined(dir, name)) == Some(trimmed(dir, head(dir))),
{
    joined_head(dir, name);
    joined_part(dir, name);
    let h = head(dir);
    if dir.len() > h && dir.last() == '/' {
        let body = dir.skip(h as int);
        let at = body.len() - 1;
        last_slash_at(body, at);
        assert(last_part(dir, h).len() == 0);
        assert(stem(dir, h) =~= dir.drop_last());
        assert(trimmed(dir, h) == trimmed(stem(dir, h), h));
    }
}

/// A path that ends in a component that counts is not trimmed.
pub proof fn law_a_joined_path_is_trimmed(dir: Seq<char>, name: Seq<char>)
    requires
        plain(name),
    ensures
        trimmed(joined(dir, name), head(joined(dir, name))) == joined(dir, name),
{
    joined_part(dir, name);
}

/// A front of components that do not count changes nothing.
proof fn leading_append(front: Seq<char>, back: Seq<char>)
    requires
        leading(front).len() == 0,
        front.len() == 0 || back.len() == 0 || back[0] == '/' || front.last() == '/',
    ensures
        leading(front + back) == leading(back),
    decreases front.len(),
{
    let whole = front + back;
    if front.len() == 0 {
        assert(whole =~= back);
    } else {
        assert(idle(first_part(front)));
        first_slash_within(front);
        let at = first_slash(front);
        let rest = behind_first(front);
        if at < front.len() {
            assert forall|k: int| 0 <= k < at implies whole[k] != '/' by {
                assert(whole[k] == front[k]);
            }
            first_slash_at(whole, at);
            assert(first_part(whole) =~= first_part(front));
            assert(behind_first(whole) =~= rest + back);
            leading_append(rest, back);
        } else {
            assert(front.last() != '/');
            assert forall|k: int| 0 <= k < at implies whole[k] != '/' by {
                assert(whole[k] == front[k]);
            }
            first_slash_at(whole, at);
            assert(first_part(whole) =~= front);
            assert(first_part(front) =~= front);
            if back.len() > 0 {
                assert(behind_first(whole) =~= back.skip(1));
                leading_slash(back);
            } else {
                assert(behind_first(whole) =~= back);
            }
        }
    }
}

/// A slash at the front does not count.
proof fn leading_slash(path: Seq<char>)
    requires
        path.len() > 0,
        path[0] == '/',
    ensures
        leading(path) == leading(path.skip(1)),
{
    first_slash_at(path, 0);
    assert(first_part(path).len() == 0);
    assert(behind_first(path) =~= path.skip(1));
}

/// Nothing that counts is trimmed.
proof fn trimmed_tail(path: Seq<char>, head: nat) -> (end: int)
    requires
        head <= path.len(),
    ensures
        head <= end <= path.len(),
        trimmed(path, head) == path.take(end),
        leading(path.skip(end)).len() == 0,
        end == head || end == path.len() || path[end] == '/',
    decreases path.len(),
{
    if path.len() > head && idle(last_part(path, head)) {
        let body = path.skip(head as int);
        last_slash_within(body);
        let at = last_slash(body);
        let short = stem(path, head);
        let cut = short.len() as int;
        let end = trimmed_tail(short, head);
        assert(short.take(end) =~= path.take(end));
        let front = short.skip(end);
        let back = path.skip(cut);
        assert(path.skip(end) =~= front + back);
        let part = last_part(path, head);
        assert(leading(back).len() == 0) by {
            if at >= 0 {
                assert(back[0] == body[at]);
                assert(back.skip(1) =~= part);
                leading_slash(back);
            } else {
                assert(back =~= part);
            }
            idle_alone(part);
        }
        if at >= 0 {
            assert(back[0] == body[at]);
        }
        leading_append(front, back);
        if end < cut {
            assert(short[end] == path[end]);
        } else if at >= 0 {
            assert(path[end] == body[at]);
        }
        end
    } else {
        assert(path.take(path.len() as int) =~= path);
        path.len() as int
    }
}

/// A component that does not count leads nowhere.
proof fn idle_alone(part: Seq<char>)
    requires
        idle(part),
    ensures
        leading(part).len() == 0,
{
    if part.len() > 0 {
        first_slash_at(part, 1);
        assert(first_part(part) =~= part);
        assert(behind_first(part) =~= Seq::<char>::empty());
        assert(leading(behind_first(part)).len() == 0);
    }
}

/// Behind the components of a path lies what follows them.
proof fn behind_append(dir: Seq<char>, tail: Seq<char>)
    requires
        dir.len() == 0 || tail.len() == 0 || tail[0] == '/' || dir.last() == '/',
    ensures
        behind(dir, dir + tail) == Some(leading(tail)),
        leading(tail).len() == 0 ==> behind(dir + tail, dir) == Some(Seq::<char>::empty()),
    decreases dir.len(),
{
    let whole = dir + tail;
    if dir.len() == 0 {
        assert(whole =~= tail);
        assert(leading(dir) =~= Seq::<char>::empty());
        assert(leading(tail).len() == 0 ==> leading(tail) =~= Seq::<char>::empty());
    } else {
        first_slash_within(dir);
        let at = first_slash(dir);
        let rest = behind_first(dir);
        assert forall|k: int| 0 <= k < at implies whole[k] != '/' by {
            assert(whole[k] == dir[k]);
        }
        assert(at == dir.len() ==> dir.last() != '/');
        first_slash_at(whole, at);
        assert(first_part(whole) =~= first_part(dir));
        if at < dir.len() {
            assert(behind_first(whole) =~= rest + tail);
            behind_append(rest, tail);
            behind_leading(rest, rest + tail);
            behind_leading(rest + tail, rest);
        } else {
            let next = behind_first(whole);
            if tail.len() > 0 {
                assert(next =~= tail.skip(1));
                leading_slash(tail);
            } else {
                assert(next =~= tail);
            }
            let nothing = Seq::<char>::empty();
            assert(rest =~= nothing);
            assert(leading(nothing) =~= nothing);
            assert(behind(rest, next) == Some(leading(next)));
            if leading(tail).len() == 0 {
                assert(behind(next, rest) == Some(leading(rest)));
            }
        }
        if idle(first_part(dir)) {
            assert(leading(dir) == leading(rest));
            assert(leading(whole) == leading(behind_first(whole)));
            behind_leading(dir, whole);
            behind_leading(whole, dir);
            behind_leading(rest, behind_first(whole));
            behind_leading(behind_first(whole), rest);
        }
    }
}

/// What lies behind a path does not turn on what does not count in front.
proof fn behind_leading(dir: Seq<char>, path: Seq<char>)
    ensures
        behind(dir, path) == behind(leading(dir), leading(path)),
{
    leading_settled(dir);
    leading_settled(path);
}

proof fn leading_settled(path: Seq<char>)
    ensures
        leading(leading(path)) == leading(path),
    decreases path.len(),
{
    if path.len() > 0 && idle(first_part(path)) {
        first_slash_within(path);
        leading_settled(behind_first(path));
    }
}

/// A path made of a directory and a single component is that component,
/// relative to the directory.
pub proof fn law_a_joined_path_lies_below_its_directory(dir: Seq<char>, name: Seq<char>)
    requires
        plain(name),
    ensures
        below(dir, joined(dir, name)) == Some(name),
{
    joined_head(dir, name);
    joined_part(dir, name);
    let path = joined(dir, name);
    if dir.len() > 0 {
        let h = head(dir) as int;
        let tail = path.skip(dir.len() as int);
        assert(path.skip(h) =~= dir.skip(h) + tail);
        if dir.len() > h {
            assert(dir.skip(h).last() == dir.last());
        }
        behind_append(dir.skip(h), tail);
        if dir.last() != '/' {
            assert(tail =~= seq!['/'] + name);
            assert(tail.skip(1) =~= name);
            leading_slash(tail);
        } else {
            assert(tail =~= name);
        }
        first_slash_at(name, name.len() as int);
        assert(first_part(name) =~= name);
        assert(path[0] == dir[0]) by {
            assert(path.take(dir.len() as int)[0] == dir[0]);
        }
        assert(name.skip(0) =~= name);
        last_slash_at(name, -1);
        assert(last_part(name, 0) =~= name);
    }
}

/// A directory, however it is written, is nothing relative to itself.
pub proof fn law_a_directory_is_nothing_below_itself(dir: Seq<char>)
    ensures
        below(dir, trimmed(dir, head(dir))) == Some(Seq::<char>::empty()),
{
    let h = head(dir);
    let nothing = Seq::<char>::empty();
    if dir.len() == 0 {
        assert(dir =~= nothing);
        assert(trimmed(dir, h) == dir);
    } else {
        let end = trimmed_tail(dir, h);
        let own = trimmed(dir, h);
        assert(own.len() > 0) by {
            if own.len() == 0 {
                front_counts(dir, h);
            }
        }
        assert(head(own) == h) by {
            if end < dir.len() && end > 0 && own.len() == 1 {
                assert(end == h || dir[end] == '/');
            }
        }
        let body = own.skip(h as int);
        let tail = dir.skip(end);
        assert(dir.skip(h as int) =~= body + tail);
        if end < dir.len() && end > h {
            assert(tail[0] == dir[end]);
        }
        behind_append(body, tail);
        assert(trimmed(nothing, 0) == nothing);
    }
}

/// A path without a front for the root or the current directory begins with a
/// component that counts.
proof fn front_counts(dir: Seq<char>, head: nat)
    requires
        head == self::head(dir),
        dir.len() > 0,
    ensures
        trimmed(dir, head).len() > 0,
{
    let end = trimmed_tail(dir, head);
    if end == 0 {
        assert(dir.skip(0) =~= dir);
        first_slash_within(dir);
        let at = first_slash(dir);
        assert(first_part(dir).len() == at);
        if at == 0 {
            assert(dir[0] == '/');
        } else if first_part(dir) == seq!['.'] {
            assert(first_part(dir)[0] == dir[0]);
        }
        assert(!idle(first_part(dir)));
        assert(leading(dir) == dir);
    }
}

/// A name is put behind its directory with one slash between them, and one that
/// begins at the root stands for itself.
pub proof fn law_a_name_is_put_behind_its_directory(dir: Seq<char>, name: Seq<char>)
    ensures
        text::begins(name, "/"@) ==> joined(dir, name) == name,
        dir.len() == 0 ==> joined(dir, name) == name,
        text::ends(joined(dir, name), name),
        dir.len() > 0 && !text::begins(name, "/"@) ==> text::begins(joined(dir, name), dir) && joined(dir, name)[dir.len()
            - 1 + (if dir.last() == '/' {
            0int
        } else {
            1
        })] == '/',
{
    reveal_strlit("/");
    assert(name.subrange(0, name.len() as int) =~= name);
    if dir.len() > 0 && !text::begins(name, "/"@) {
        text::law_parts_occur(dir, name, Seq::empty());
        text::law_parts_occur(Seq::empty(), dir, name);
        text::law_parts_occur(dir + "/"@, name, Seq::empty());
        text::law_parts_occur(Seq::empty(), dir, "/"@ + name);
        text::law_grouping_does_not_matter(dir, "/"@, name);
    }
}

} // verus!
