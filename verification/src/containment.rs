use crate::options::TransferOption;
use crate::packet::ErrorCode;
use crate::packet::PacketView;
use crate::path::spec_convert_file_path;
use crate::path::spec_has_dotdot;
use crate::path::spec_is_separator;
use crate::path::spec_is_within;
use crate::path::spec_join_path;
use crate::path::spec_validate_file_path;
use crate::server::spec_access_error;
use crate::server::LookupView;
use crate::server::ServerView;
use vstd::prelude::*;

verus! {

/// The components of a path: the pieces between its separators.
pub open spec fn spec_split(path: Seq<char>, separator: char) -> Seq<Seq<char>>
    decreases path.len(),
{
    if path.len() == 0 {
        seq![Seq::<char>::empty()]
    } else {
        let rest = spec_split(path.drop_first(), separator);
        if path[0] == separator {
            seq![Seq::<char>::empty()] + rest
        } else {
            rest.update(0, seq![path[0]] + rest[0])
        }
    }
}

/// The component that names the parent directory.
pub open spec fn spec_parent() -> Seq<char> {
    seq!['.', '.']
}

/// Where a walk along `components` ends that starts in a directory, at
/// the directories `below` it: an empty component and `.` stay, `..`
/// goes up, any other name goes down. `None` once the walk has gone up
/// out of the directory it started in.
pub open spec fn spec_walk(below: Seq<Seq<char>>, components: Seq<Seq<char>>) -> Option<
    Seq<Seq<char>>,
>
    decreases components.len(),
{
    if components.len() == 0 {
        Some(below)
    } else {
        let name = components[0];
        let rest = components.drop_first();
        if name.len() == 0 || name == seq!['.'] {
            spec_walk(below, rest)
        } else if name == spec_parent() {
            if below.len() == 0 {
                None
            } else {
                spec_walk(below.drop_last(), rest)
            }
        } else {
            spec_walk(below.push(name), rest)
        }
    }
}

/// Whether the path `relative`, followed from a directory, leaves that
/// directory at some step. A path that comes to lie outside the
/// directory once `.` and `..` are resolved does so.
pub open spec fn spec_leaves_directory(relative: Seq<char>, separator: char) -> bool {
    spec_walk(Seq::<Seq<char>>::empty(), spec_split(relative, separator)) is None
}

/// A walk leaves its directory only over a `..` component.
proof fn lemma_walk_needs_parent(below: Seq<Seq<char>>, components: Seq<Seq<char>>)
    requires
        spec_walk(below, components) is None,
    ensures
        exists|k: int| 0 <= k < components.len() && #[trigger] components[k] == spec_parent(),
    decreases components.len(),
{
    if components.len() > 0 {
        let name = components[0];
        let rest = components.drop_first();
        if name == spec_parent() && !(name.len() == 0 || name == seq!['.']) && below.len() == 0 {
            assert(components[0] == spec_parent());
        } else {
            let next = if name.len() == 0 || name == seq!['.'] {
                below
            } else if name == spec_parent() {
                below.drop_last()
            } else {
                below.push(name)
            };
            lemma_walk_needs_parent(next, rest);
            let k = choose|k: int| 0 <= k < rest.len() && #[trigger] rest[k] == spec_parent();
            assert(components[k + 1] == rest[k]);
        }
    }
}

/// A path has at least one component, its first component begins the
/// path, and a `..` among its components shows as two dots in a row.
proof fn lemma_split_parent(path: Seq<char>, separator: char)
    requires
        separator != '.',
    ensures
        spec_split(path, separator).len() >= 1,
        spec_split(path, separator)[0].len() <= path.len(),
        spec_split(path, separator)[0] == path.subrange(
            0,
            spec_split(path, separator)[0].len() as int,
        ),
        (exists|k: int|
            0 <= k < spec_split(path, separator).len() && #[trigger] spec_split(path, separator)[k]
                == spec_parent()) ==> spec_has_dotdot(path),
    decreases path.len(),
{
    let parts = spec_split(path, separator);
    if path.len() == 0 {
        assert(parts[0] =~= path.subrange(0, 0));
        assert forall|k: int| 0 <= k < parts.len() implies #[trigger] parts[k] != spec_parent() by {
            assert(parts[k].len() == 0);
        }
    } else {
        let tail = path.drop_first();
        let rest = spec_split(tail, separator);
        lemma_split_parent(tail, separator);
        if path[0] == separator {
            assert(parts[0] =~= path.subrange(0, 0));
        } else {
            assert(parts[0] =~= path.subrange(0, 1 + rest[0].len() as int)) by {
                assert(rest[0] == tail.subrange(0, rest[0].len() as int));
            }
        }
        if exists|k: int| 0 <= k < parts.len() && #[trigger] parts[k] == spec_parent() {
            let k = choose|k: int| 0 <= k < parts.len() && #[trigger] parts[k] == spec_parent();
            if k == 0 {
                assert(path.subrange(0, 2) == spec_parent());
                assert(path[0] == path.subrange(0, 2)[0]);
                assert(path[0int + 1] == path.subrange(0, 2)[1]);
                assert(path[0int] == '.' && path[0int + 1] == '.');
            } else {
                if path[0] == separator {
                    assert(rest[k - 1] == parts[k]);
                } else {
                    assert(rest[k] == parts[k]);
                }
                assert(spec_has_dotdot(tail));
                let i = choose|i: int|
                    0 <= i && i + 1 < tail.len() && tail[i] == '.' && #[trigger] tail[i + 1] == '.';
                assert(path[i + 1] == tail[i]);
                assert(path[i + 1 + 1] == tail[i + 1]);
                assert(path[i + 1] == '.' && path[(i + 1) + 1] == '.');
            }
        }
    }
}

/// Two dots in a row in a relative path show in its path in a directory.
proof fn lemma_join_keeps_dotdot(directory: Seq<char>, relative: Seq<char>, separator: char)
    requires
        spec_has_dotdot(relative),
    ensures
        spec_has_dotdot(spec_join_path(directory, relative, separator)),
{
    let joined = spec_join_path(directory, relative, separator);
    let i = choose|i: int|
        0 <= i && i + 1 < relative.len() && relative[i] == '.' && #[trigger] relative[i + 1] == '.';
    let offset = joined.len() - relative.len();
    assert(joined[offset + i] == relative[i]);
    assert(joined[offset + i + 1] == relative[i + 1]);
    assert(joined[offset + i] == '.' && joined[(offset + i) + 1] == '.');
}

/// A path in a directory that holds no two dots in a row, neither in the
/// directory nor in the relative path, may be served from the directory.
proof fn lemma_join_is_valid(directory: Seq<char>, relative: Seq<char>, separator: char)
    requires
        spec_is_separator(separator),
        !spec_has_dotdot(directory),
        !spec_has_dotdot(relative),
    ensures
        spec_validate_file_path(spec_join_path(directory, relative, separator), directory, separator),
{
    let joined = spec_join_path(directory, relative, separator);
    assert(joined.subrange(0, directory.len() as int) =~= directory);
    assert(spec_is_within(joined, directory, separator));
    if spec_has_dotdot(joined) {
        let i = choose|i: int|
            0 <= i && i + 1 < joined.len() && joined[i] == '.' && #[trigger] joined[i + 1] == '.';
        let d = directory.len() as int;
        if i + 1 < d {
            assert(directory[i] == '.' && directory[i + 1] == '.');
        } else {
            let offset = joined.len() - relative.len();
            if i >= offset {
                assert(relative[i - offset] == joined[i]);
                assert(relative[(i - offset) + 1] == joined[i + 1]);
            } else {
                if offset == d {
                    assert(joined[i] == directory[i]);
                    assert(directory.last() == separator);
                } else {
                    assert(joined[d] == separator);
                }
            }
        }
    }
}

/// A request whose file name leads out of the served directory is
/// answered with an access violation, whatever the directory; so is
/// every file name that comes to lie outside the directory once `.` and
/// `..` are resolved. A request whose path holds no two dots in a row, in
/// a directory that holds none, has its file looked for at its path in
/// the directory. A write request is meant on a server that takes write
/// requests.
pub proof fn lemma_containment(
    server: ServerView,
    read: bool,
    filename: Seq<char>,
    mode: Seq<char>,
    options: Seq<TransferOption>,
)
    requires
        spec_is_separator(server.separator),
        !read ==> !server.read_only,
    ensures
        ({
            let request = if read {
                PacketView::Rrq { filename, mode, options }
            } else {
                PacketView::Wrq { filename, mode, options }
            };
            let relative = spec_convert_file_path(filename, server.separator);
            let directory = if read {
                server.send_directory
            } else {
                server.receive_directory
            };
            &&& spec_leaves_directory(relative, server.separator) ==> server.listen(request)
                == LookupView::Reply(spec_access_error(server.path_of(read, filename)))
            &&& spec_access_error(server.path_of(read, filename)) matches PacketView::Error {
                code,
                msg,
            } && code == ErrorCode::AccessViolation
            &&& !spec_has_dotdot(relative) && !spec_has_dotdot(directory) ==> server.listen(request)
                == (LookupView::Probe {
                read,
                path: spec_join_path(directory, relative, server.separator),
                options,
            })
        }),
{
    let separator = server.separator;
    let relative = spec_convert_file_path(filename, separator);
    let directory = if read {
        server.send_directory
    } else {
        server.receive_directory
    };
    if spec_leaves_directory(relative, separator) {
        lemma_walk_needs_parent(Seq::<Seq<char>>::empty(), spec_split(relative, separator));
        lemma_split_parent(relative, separator);
        lemma_join_keeps_dotdot(directory, relative, separator);
    }
    if !spec_has_dotdot(relative) && !spec_has_dotdot(directory) {
        lemma_join_is_valid(directory, relative, separator);
    }
}

/// No decision serves a path that may not be served: where the listener
/// decides to serve a read request, its path holds no two dots in a row
/// and lies within the directory that files are sent from; where it
/// decides to serve a write request, the server takes write requests and
/// the path lies likewise within the directory that received files go
/// to.
pub proof fn lemma_serves_within(
    server: ServerView,
    path: Seq<char>,
    offered: Seq<TransferOption>,
    size: Option<u64>,
    exists: bool,
)
    ensures
        server.handle_rrq(path, offered, size).1 is Serve ==> spec_validate_file_path(
            path,
            server.send_directory,
            server.separator,
        ),
        server.handle_wrq(path, offered, exists).1 is Serve ==> !server.read_only
            && spec_validate_file_path(path, server.receive_directory, server.separator),
{
}

} // verus!
