//! What paths, object names and kept secrets do, over all of them.

use vstd::prelude::*;

use crate::git::{count_conflicts, hex, hex_digit, lemma_hex_len, ConflictHunkKind};
use crate::paths::{
    body, changed_extension, components, directory, extension, file_name, head, joined,
    last_index, last_part, last_start, lemma_head, lemma_last_index, stem,
};
use crate::providers::types::AccountId;
use crate::secrets::{
    held, is_token_char, lookup, mcp_key, store_error_text, with_value, without, Key, StoreError,
};

verus! {

/// Whether a text can name a file: it is not empty, it holds no slash, and it
/// is neither `.` nor `..`.
pub open spec fn is_plain_name(name: Seq<char>) -> bool {
    &&& name.len() > 0
    &&& forall|i: int| 0 <= i < name.len() ==> #[trigger] name[i] != '/'
    &&& name != seq!['.']
    &&& name != seq!['.', '.']
}

proof fn lemma_last_index_at(s: Seq<char>, c: char, at: int)
    requires
        0 <= at < s.len(),
        s[at] == c,
        forall|i: int| at < i < s.len() ==> #[trigger] s[i] != c,
    ensures
        last_index(s, c) == at,
{
    lemma_last_index(s, c);
    let found = last_index(s, c);
    if found < at {
        assert(s[at] != c);
    }
    if found > at {
        assert(s[found] != c);
    }
}

proof fn lemma_no_index(s: Seq<char>, c: char)
    requires
        forall|i: int| 0 <= i < s.len() ==> #[trigger] s[i] != c,
    ensures
        last_index(s, c) == -1,
{
    lemma_last_index(s, c);
}

/// Where a name stands behind a directory: the last part of the joined path.
proof fn lemma_joined_last(dir: Seq<char>, name: Seq<char>)
    requires
        is_plain_name(name),
    ensures
        body(joined(dir, name)) == joined(dir, name),
        last_part(joined(dir, name)) == name,
        last_start(joined(dir, name)) == joined(dir, name).len() - name.len(),
        dir.len() > 0 ==> head(joined(dir, name)) == dir || head(joined(dir, name)) == dir.push(
            '/',
        ),
        dir.len() == 0 ==> head(joined(dir, name)).len() == 0,
{
    let p = joined(dir, name);
    let at = p.len() - name.len() - 1;
    assert(p.last() == name.last());
    assert(name[name.len() - 1] != '/');
    if p.len() > 1 && p.last() == '.' && p[p.len() - 2] == '/' {
        if name.len() > 1 {
            assert(p[p.len() - 2] == name[name.len() - 2]);
        } else {
            assert(name =~= seq!['.']);
        }
        assert(false);
    }
    assert(body(p) == p);
    if dir.len() == 0 {
        lemma_no_index(p, '/');
        assert(p.skip(0) =~= name);
    } else {
        assert(p[at] == '/');
        assert forall|i: int| at < i < p.len() implies #[trigger] p[i] != '/' by {
            assert(p[i] == name[i - at - 1]);
        }
        lemma_last_index_at(p, '/', at);
        assert(p.skip(at + 1) =~= name);
        if dir.last() == '/' {
            assert(p.take(at + 1) =~= dir);
        } else {
            assert(p.take(at + 1) =~= dir.push('/'));
        }
    }
}

/// A file below a directory has the name it was given, and lies in that
/// directory.
pub proof fn law_joined_paths(dir: Seq<char>, name: Seq<char>)
    requires
        is_plain_name(name),
    ensures
        file_name(joined(dir, name)) == Some(name),
        dir.len() == 0 ==> joined(dir, name) == name && directory(joined(dir, name)).len() == 0,
        body(dir) == dir && dir.len() > 0 ==> directory(joined(dir, name)) == dir,
        dir == seq!['/'] ==> directory(joined(dir, name)) == dir,
{
    lemma_joined_last(dir, name);
    if dir.len() > 0 && body(dir) == dir {
        assert(dir.last() != '/') by {
            if dir.last() == '/' {
                crate::paths::lemma_body(dir);
            }
        }
        assert(dir.push('/').drop_last() =~= dir);
        assert(joined(dir, name).take(dir.len() as int + 1) =~= dir.push('/'));
        assert(body(dir.push('/')) == body(dir));
    }
    if dir == seq!['/'] {
        assert(joined(dir, name).take(1) =~= dir);
        assert(dir.drop_last() =~= Seq::<char>::empty());
        assert(body(dir.drop_last()) =~= Seq::<char>::empty());
        assert(dir.last() == '/');
        assert(body(dir) == body(dir.drop_last()));
    }
}

/// The extension of a file is what stands behind the last dot of its name. A
/// dot at the front begins none.
pub proof fn law_extensions(dir: Seq<char>, first: Seq<char>, ext: Seq<char>)
    requires
        first.len() > 0,
        forall|i: int| 0 <= i < ext.len() ==> #[trigger] ext[i] != '.',
        is_plain_name(first + seq!['.'] + ext),
    ensures
        extension(joined(dir, first + seq!['.'] + ext)) == Some(ext),
        stem(first + seq!['.'] + ext) == first,
{
    let name = first + seq!['.'] + ext;
    lemma_joined_last(dir, name);
    let at = first.len() as int;
    assert(name[at] == '.');
    assert forall|i: int| at < i < name.len() implies #[trigger] name[i] != '.' by {
        assert(name[i] == ext[i - at - 1]);
    }
    lemma_last_index_at(name, '.', at);
    assert(name.skip(at + 1) =~= ext);
    assert(name.take(at) =~= first);
}

/// A name without a dot has no extension, and so has one with a dot at the
/// front alone.
pub proof fn law_missing_extensions(dir: Seq<char>, name: Seq<char>)
    requires
        is_plain_name(name),
        forall|i: int| 0 < i < name.len() ==> #[trigger] name[i] != '.',
    ensures
        extension(joined(dir, name)) is None,
        stem(name) == name,
{
    lemma_joined_last(dir, name);
    lemma_last_index(name, '.');
}

/// A path with another extension is the same path but for that: it lies in the
/// same directory, its name begins as before, and its extension is the new
/// one.
pub proof fn law_changed_extensions(dir: Seq<char>, first: Seq<char>, old_ext: Seq<char>, ext: Seq<char>)
    requires
        first.len() > 0,
        forall|i: int| 0 <= i < old_ext.len() ==> #[trigger] old_ext[i] != '.',
        is_plain_name(first + seq!['.'] + old_ext),
    ensures
        changed_extension(joined(dir, first + seq!['.'] + old_ext), ext) == joined(
            dir,
            first + seq!['.'] + ext,
        ),
{
    let name = first + seq!['.'] + old_ext;
    law_extensions(dir, first, old_ext);
    lemma_joined_last(dir, name);
    let p = joined(dir, name);
    assert(changed_extension(p, ext) =~= joined(dir, first + seq!['.'] + ext));
}

/// The parts of a path are those of its directory and its name, and a slash at
/// the end adds none.
pub proof fn law_parts(dir: Seq<char>, name: Seq<char>)
    requires
        is_plain_name(name),
    ensures
        components(joined(dir, name)).len() > 0,
        components(joined(dir, name)).last() == name,
        dir.len() == 0 ==> components(joined(dir, name)) == seq![name],
{
    lemma_joined_last(dir, name);
    lemma_head(joined(dir, name));
    assert(components(joined(dir, name)) == components(head(joined(dir, name))).push(name));
    if dir.len() == 0 {
        assert(head(joined(dir, name)) =~= Seq::<char>::empty());
        lemma_no_index(Seq::<char>::empty(), '/');
        assert(components(Seq::<char>::empty()) =~= Seq::empty());
    }
}

/// What a small hexadecimal digit stands for.
pub open spec fn hex_digit_value(c: char) -> int {
    if c <= '9' {
        c as int - '0' as int
    } else {
        c as int - 'a' as int + 10
    }
}

/// Bytes in hexadecimal can be read back, two digits each, the high one first.
pub proof fn law_bytes_are_read_back(bytes: Seq<u8>, i: int)
    requires
        0 <= i < bytes.len(),
    ensures
        hex(bytes).len() == 2 * bytes.len(),
        16 * hex_digit_value(hex(bytes)[2 * i]) + hex_digit_value(hex(bytes)[2 * i + 1]) == bytes[i],
    decreases bytes.len(),
{
    lemma_hex_len(bytes);
    lemma_hex_len(bytes.drop_last());
    if i < bytes.len() - 1 {
        law_bytes_are_read_back(bytes.drop_last(), i);
        assert(hex(bytes)[2 * i] == hex(bytes.drop_last())[2 * i]);
        assert(hex(bytes)[2 * i + 1] == hex(bytes.drop_last())[2 * i + 1]);
    } else {
        let b = bytes.last();
        assert(hex(bytes)[2 * i] == hex_digit((b / 16) as nat));
        assert(hex(bytes)[2 * i + 1] == hex_digit((b % 16) as nat));
    }
}

/// Different names of objects are different texts.
pub proof fn law_object_names_are_distinct(a: Seq<u8>, b: Seq<u8>)
    ensures
        hex(a) == hex(b) ==> a == b,
{
    if hex(a) == hex(b) {
        lemma_hex_len(a);
        lemma_hex_len(b);
        assert forall|i: int| 0 <= i < a.len() implies a[i] == b[i] by {
            law_bytes_are_read_back(a, i);
            law_bytes_are_read_back(b, i);
        }
        assert(a =~= b);
    }
}

/// The characters of a token are the small hexadecimal digits.
pub proof fn law_token_characters(c: char)
    ensures
        is_token_char(c) <==> exists|d: nat| d < 16 && #[trigger] hex_digit(d) == c,
{
    if is_token_char(c) {
        let d = hex_digit_value(c) as nat;
        assert(d < 16 && hex_digit(d) == c);
    }
}

/// The number of conflicts is that of the chunks that are conflicts.
pub proof fn law_conflicts_are_counted(chunks: Seq<ConflictHunkKind>)
    ensures
        count_conflicts(chunks) == chunks.filter(|c: ConflictHunkKind| c is Conflict).len(),
    decreases chunks.len(),
{
    reveal(Seq::filter);
    if chunks.len() > 0 {
        law_conflicts_are_counted(chunks.drop_last());
    }
}

/// A secret is looked up as the first of its key, and is found just where
/// there is one.
pub proof fn law_first_secret(entries: Seq<(Key, Seq<char>)>, key: Key, at: int)
    requires
        0 <= at <= entries.len(),
        forall|k: int| 0 <= k < at ==> (#[trigger] entries[k]).0 != key,
        at < entries.len() ==> entries[at].0 == key,
    ensures
        at < entries.len() ==> lookup(entries, key) == Some(entries[at].1),
        at == entries.len() ==> lookup(entries, key) is None,
    decreases entries.len(),
{
    if entries.len() > 0 && at > 0 {
        let rest = entries.drop_first();
        assert forall|k: int| 0 <= k < at - 1 implies (#[trigger] rest[k]).0 != key by {
            assert(rest[k] == entries[k + 1]);
        }
        if at < entries.len() {
            assert(rest[at - 1] == entries[at]);
        }
        assert(entries[0].0 != key);
        law_first_secret(rest, key, at - 1);
    }
}

/// Deleting keeps the secrets of the other keys, in their order, and writing
/// keeps all of them.
pub proof fn law_other_secrets_stay(entries: Seq<(Key, Seq<char>)>, key: Key, value: Seq<char>)
    ensures
        without(entries, key) == entries.filter(|e: (Key, Seq<char>)| e.0 != key),
        lookup(entries, key) is Some ==> with_value(entries, key, value).len() == entries.len(),
        lookup(entries, key) is None ==> with_value(entries, key, value) == entries.push(
            (key, value),
        ),
        forall|k: int|
            0 <= k < entries.len() && (#[trigger] entries[k]).0 != key ==> with_value(
                entries,
                key,
                value,
            )[k] == entries[k],
    decreases entries.len(),
{
    let keep = |e: (Key, Seq<char>)| e.0 != key;
    reveal(Seq::filter);
    if entries.len() == 0 {
        assert(with_value(entries, key, value) =~= entries.push((key, value)));
    } else {
        let rest = entries.drop_first();
        law_other_secrets_stay(rest, key, value);
        assert(entries =~= seq![entries[0]] + rest);
        Seq::filter_distributes_over_add(seq![entries[0]], rest, keep);
        assert(seq![entries[0]].drop_last() =~= Seq::empty());
        assert(Seq::<(Key, Seq<char>)>::empty().filter(keep) =~= Seq::empty());
        assert(seq![entries[0]].filter(keep) =~= if keep(entries[0]) {
            seq![entries[0]]
        } else {
            Seq::empty()
        });
        assert(without(entries, key) =~= entries.filter(keep));
        if entries[0].0 != key {
            assert(rest.push((key, value)) =~= (seq![entries[0]] + rest.push((key, value))).skip(1));
            assert(seq![entries[0]] + rest.push((key, value)) =~= entries.push((key, value)));
            assert forall|k: int| 0 <= k < entries.len() && (#[trigger] entries[k]).0
                != key implies with_value(entries, key, value)[k] == entries[k] by {
                if k > 0 {
                    assert(rest[k - 1] == entries[k]);
                }
            }
        }
    }
}

/// The token of a session is kept apart from the secrets of accounts.
pub proof fn law_token_is_kept_apart(account: AccountId)
    ensures
        mcp_key().0 != account.service(),
        mcp_key() == ("mergefox-mcp"@, "session-token"@),
{
    reveal_strlit("mergefox-mcp");
    reveal_strlit("mergefox::");
    assert(mcp_key().0[8] == '-');
    assert(account.service()[8] == ':');
}

/// Failures of the store name the files they are about.
pub proof fn law_store_failures(e: StoreError)
    ensures
        e matches StoreError::Read { path } ==> store_error_text(e) == "read "@ + path@,
        e matches StoreError::Parse { path } ==> store_error_text(e) == "parse "@ + path@,
        e matches StoreError::Write { path } ==> store_error_text(e) == "write "@ + path@,
        e matches StoreError::Rename { from, to } ==> store_error_text(e) == "rename "@ + from@
            + " -> "@ + to@,
{
}

/// A map holds what was put in last.
pub proof fn law_held_secrets(m: Map<Key, Seq<char>>, key: Key)
    ensures
        held(m, key) is Some <==> m.dom().contains(key),
        held(m, key) matches Some(value) ==> m[key] == value,
{
}

/// The directories themselves, `.` and `..`, are no files, and neither is a
/// path without a part.
pub proof fn law_no_file_names(p: Seq<char>)
    ensures
        last_part(p) == seq!['.', '.'] ==> file_name(p) is None,
        last_part(p) == seq!['.'] ==> file_name(p) is None,
        last_part(p).len() == 0 ==> file_name(p) is None,
        file_name(p) matches Some(name) ==> name == last_part(p),
{
}

} // verus!
