//! The entries that are kept in the local SSH configuration: a `Host` block for each VM and one
//! for the subnet of the VMs, between marker comments by which they are found again.
use vstd::prelude::*;

use crate::config::{join_path, path_below};
use crate::number::{decimal, dotted, lemma_dotted_pieces};
use crate::text::{
    feed_free, find_char, is_line, join_lines, lemma_feed_free, lemma_find_from,
    lemma_first_piece, lemma_lines_hold_no_feed, lemma_lines_of_concat, lemma_lines_of_first,
    lemma_lines_of_unlines, lemma_unlines_concat, lemma_unlines_ends, lines, lines_of,
    lines_read_back, no_feed, opt_text, pieces, same_text, split, trim_end_of, trimmed_end_of,
    unlines, without_cr,
};

verus! {

/// The SSH configuration file, below the home directory where that is known.
pub fn default_path(home: Option<&str>) -> (r: Option<String>)
    ensures
        opt_text(r) == match home {
            Some(h) => Some(path_below(h@, ".ssh/config"@)),
            None => None,
        },
{
    match home {
        Some(h) => Some(join_path(h, ".ssh/config")),
        None => None,
    }
}

// ---------------------------------------------------------------------------------------------
// Blocks.
/// The comment before the block of a VM.
pub open spec fn vm_marker(name: Seq<char>) -> Seq<char> {
    "# mox-managed: "@ + name
}

/// The comment after a block.
pub open spec fn end_marker() -> Seq<char> {
    "# mox-managed end"@
}

/// The comment before the block of the subnet.
pub open spec fn subnet_marker() -> Seq<char> {
    "# mox-managed subnet"@
}

/// The lines between the markers of the block of a VM.
pub open spec fn vm_body(
    name: Seq<char>,
    alias: Seq<char>,
    user: Seq<char>,
    identity: Seq<char>,
) -> Seq<Seq<char>> {
    seq![
        "Host "@ + name + " "@ + alias,
        "    HostName "@ + alias,
        "    User "@ + user,
        "    IdentityFile "@ + identity,
        "    IdentitiesOnly yes"@,
    ]
}

/// The block of a VM, with a blank line before it.
pub open spec fn vm_block(
    name: Seq<char>,
    alias: Seq<char>,
    user: Seq<char>,
    identity: Seq<char>,
) -> Seq<char> {
    "\n"@ + unlines(
        seq![vm_marker(name)] + vm_body(name, alias, user, identity) + seq![end_marker()],
    )
}

/// The block of the subnet, with a line feed before it that ends the line it is put behind.
pub open spec fn subnet_block(
    pattern: Seq<char>,
    user: Seq<char>,
    identity: Seq<char>,
) -> Seq<char> {
    "\n"@ + unlines(
        seq![
            subnet_marker(),
            "Host "@ + pattern,
            "    User "@ + user,
            "    IdentityFile "@ + identity,
            "    IdentitiesOnly yes"@,
            end_marker(),
        ],
    )
}

fn line2(a: &str, b: &str) -> (r: String)
    ensures
        r@ == a@ + b@,
{
    let mut out: String = a.to_owned();
    out.append(b);
    out
}

/// The block of a VM: its leading blank line, its marker comments and what is between them.
pub fn render_block(name: &str, alias: &str, user: &str, identity: &str) -> (r: String)
    ensures
        r@ == vm_block(name@, alias@, user@, identity@),
{
    let mut host: String = "Host ".to_owned();
    host.append(name);
    host.append(" ");
    host.append(alias);
    let ls: Vec<String> = vec![
        line2("# mox-managed: ", name),
        host,
        line2("    HostName ", alias),
        line2("    User ", user),
        line2("    IdentityFile ", identity),
        "    IdentitiesOnly yes".to_owned(),
        "# mox-managed end".to_owned(),
    ];
    assert(ls.deep_view() =~= seq![vm_marker(name@)] + vm_body(name@, alias@, user@, identity@)
        + seq![end_marker()]);
    let mut out: String = "\n".to_owned();
    out.append(join_lines(&ls).as_str());
    out
}

// ---------------------------------------------------------------------------------------------
// Taking a block out.
/// What is left of the given lines without the blocks of a VM, and whether the last of those
/// lines is inside such a block. A block reaches from its marker through the next end marker.
pub open spec fn stripped(ls: Seq<Seq<char>>, name: Seq<char>) -> (bool, Seq<Seq<char>>)
    decreases ls.len(),
{
    if ls.len() == 0 {
        (false, Seq::empty())
    } else {
        let (inside, kept) = stripped(ls.drop_last(), name);
        let l = ls.last();
        if inside {
            (l != end_marker(), kept)
        } else if l == vm_marker(name) {
            (true, kept)
        } else {
            (false, kept.push(l))
        }
    }
}

/// The lines of a text without the blocks of a VM.
pub open spec fn kept_lines(content: Seq<char>, name: Seq<char>) -> Seq<Seq<char>> {
    stripped(lines_of(content), name).1
}

/// Removes the blocks of a VM: everything from its marker through the next end marker.
pub fn strip_block(content: &str, name: &str) -> (r: String)
    ensures
        r@ == unlines(kept_lines(content@, name@)),
{
    let marker: String = line2("# mox-managed: ", name);
    let ls: Vec<&str> = lines(content);
    let ghost all = ls.deep_view();
    let mut out = String::new();
    let mut inside: bool = false;
    let mut i: usize = 0;
    assert(all.take(0) =~= Seq::<Seq<char>>::empty());
    while i < ls.len()
        invariant
            i <= ls@.len(),
            all == ls.deep_view(),
            marker@ == vm_marker(name@),
            inside == stripped(all.take(i as int), name@).0,
            out@ == unlines(stripped(all.take(i as int), name@).1),
        decreases ls@.len() - i,
    {
        let line: &str = ls[i];
        let ghost kept = stripped(all.take(i as int), name@).1;
        assert(all.take(i + 1).drop_last() =~= all.take(i as int));
        assert(all.take(i + 1).last() == line@);
        if inside {
            if same_text(line, "# mox-managed end") {
                inside = false;
            }
        } else if same_text(line, marker.as_str()) {
            inside = true;
        } else {
            out.append(line);
            out.push('\n');
            assert(kept.push(line@).drop_last() =~= kept);
            assert((unlines(kept) + line@).push('\n') =~= unlines(kept) + line@.push('\n'));
        }
        i = i + 1;
    }
    assert(all.take(i as int) =~= all);
    out
}

// ---------------------------------------------------------------------------------------------
// Putting a block in.
/// The configuration with the block of a VM put in, in place of the one it had. One blank line
/// separates the block from what stands before it.
pub open spec fn upserted(
    content: Seq<char>,
    name: Seq<char>,
    alias: Seq<char>,
    user: Seq<char>,
    identity: Seq<char>,
) -> Seq<char> {
    let kept = trimmed_end_of(unlines(kept_lines(content, name)), '\n');
    if kept.len() == 0 {
        vm_block(name, alias, user, identity)
    } else {
        kept + "\n"@ + vm_block(name, alias, user, identity)
    }
}

/// Puts the block of a VM into a configuration, in place of the one it had. One blank line
/// separates the block from what stands before it.
pub fn upsert_vm_entry(existing: &str, name: &str, alias: &str, user: &str, identity: &str) -> (r:
    String)
    ensures
        r@ == upserted(existing@, name@, alias@, user@, identity@),
{
    let rest: String = strip_block(existing, name);
    let block: String = render_block(name, alias, user, identity);
    let kept: &str = trim_end_of(rest.as_str(), '\n');
    if kept.unicode_len() == 0 {
        return block;
    }
    let mut out: String = kept.to_owned();
    out.append("\n");
    out.append(block.as_str());
    out
}

/// A subnet as a pattern for host names: its first three octets and a star, or the subnet itself
/// where it has fewer.
pub open spec fn subnet_pattern(subnet: Seq<char>) -> Seq<char> {
    let octets = pieces(pieces(subnet, '/')[0], '.');
    if octets.len() >= 3 {
        octets[0] + "."@ + octets[1] + "."@ + octets[2] + ".*"@
    } else {
        subnet
    }
}

/// Turns a subnet such as `192.168.3.0/24` into a pattern for host names, `192.168.3.*`.
pub fn subnet_host_pattern(subnet: &str) -> (r: String)
    ensures
        r@ == subnet_pattern(subnet@),
{
    let parts: Vec<&str> = split(subnet, '/');
    assert(parts.deep_view()[0] == parts@[0]@);
    let octets: Vec<&str> = split(parts[0], '.');
    assert(octets.deep_view().len() == octets@.len());
    if octets.len() >= 3 {
        let mut out: String = octets[0].to_owned();
        out.append(".");
        out.append(octets[1]);
        out.append(".");
        out.append(octets[2]);
        out.append(".*");
        assert(octets.deep_view()[0] == octets@[0]@);
        assert(octets.deep_view()[1] == octets@[1]@);
        assert(octets.deep_view()[2] == octets@[2]@);
        out
    } else {
        subnet.to_owned()
    }
}

/// Whether a configuration holds the block of the subnet.
pub open spec fn has_subnet_block(content: Seq<char>) -> bool {
    lines_of(content).contains(subnet_marker())
}

/// The configuration with the block of the subnet put in; `None` where it holds one already.
pub open spec fn with_subnet(
    content: Seq<char>,
    subnet: Seq<char>,
    user: Seq<char>,
    identity: Seq<char>,
) -> Option<Seq<char>> {
    if has_subnet_block(content) {
        None
    } else {
        Some(
            trimmed_end_of(content, '\n') + subnet_block(subnet_pattern(subnet), user, identity),
        )
    }
}

/// Puts the block of the subnet into a configuration; `None` where it holds one already.
pub fn ensure_subnet_block(existing: &str, subnet: &str, user: &str, identity: &str) -> (r: Option<
    String,
>)
    ensures
        opt_text(r) == with_subnet(existing@, subnet@, user@, identity@),
{
    let ls: Vec<&str> = lines(existing);
    let mut i: usize = 0;
    while i < ls.len()
        invariant
            i <= ls@.len(),
            ls.deep_view() == lines_of(existing@),
            forall|j: int| 0 <= j < i ==> lines_of(existing@)[j] != subnet_marker(),
        decreases ls@.len() - i,
    {
        assert(ls.deep_view()[i as int] == ls@[i as int]@);
        if same_text(ls[i], "# mox-managed subnet") {
            return None;
        }
        i = i + 1;
    }
    let pattern: String = subnet_host_pattern(subnet);
    let block: Vec<String> = vec![
        "# mox-managed subnet".to_owned(),
        line2("Host ", pattern.as_str()),
        line2("    User ", user),
        line2("    IdentityFile ", identity),
        "    IdentitiesOnly yes".to_owned(),
        "# mox-managed end".to_owned(),
    ];
    assert(block.deep_view() =~= seq![
        subnet_marker(),
        "Host "@ + pattern@,
        "    User "@ + user@,
        "    IdentityFile "@ + identity@,
        "    IdentitiesOnly yes"@,
        end_marker(),
    ]);
    let mut out: String = trim_end_of(existing, '\n').to_owned();
    let mut text: String = "\n".to_owned();
    text.append(join_lines(&block).as_str());
    out.append(text.as_str());
    Some(out)
}

// ---------------------------------------------------------------------------------------------
// What the blocks keep.
/// No line of a text that ends in a carriage return.
pub open spec fn no_cr_lines(ls: Seq<Seq<char>>) -> bool {
    forall|i: int| 0 <= i < ls.len() ==> (#[trigger] ls[i]).len() > 0 ==> ls[i].last() != '\r'
}

/// The end marker of a block is the first one after its marker.
pub open spec fn closes_last(body: Seq<Seq<char>>) -> bool {
    !lines_of(unlines(body)).contains(end_marker())
}

proof fn lemma_stripped_members(ls: Seq<Seq<char>>, name: Seq<char>)
    ensures
        forall|i: int|
            0 <= i < stripped(ls, name).1.len() ==> {
                &&& #[trigger] stripped(ls, name).1[i] != vm_marker(name)
                &&& ls.contains(stripped(ls, name).1[i])
            },
    decreases ls.len(),
{
    if ls.len() > 0 {
        let init = ls.drop_last();
        lemma_stripped_members(init, name);
        let (inside, kept) = stripped(init, name);
        let out = stripped(ls, name).1;
        assert forall|i: int| 0 <= i < out.len() implies {
            &&& #[trigger] out[i] != vm_marker(name)
            &&& ls.contains(out[i])
        } by {
            if i < kept.len() {
                assert(out[i] == kept[i]);
                let k = choose|k: int| 0 <= k < init.len() && init[k] == kept[i];
                assert(ls[k] == kept[i]);
            } else {
                assert(out[i] == ls[ls.len() - 1]);
            }
        }
    }
}

/// A text without blocks of a VM loses nothing when they are taken out.
pub proof fn unmanaged_lines_stay(ls: Seq<Seq<char>>, name: Seq<char>)
    requires
        !ls.contains(vm_marker(name)),
    ensures
        stripped(ls, name) == (false, ls),
    decreases ls.len(),
{
    if ls.len() > 0 {
        let init = ls.drop_last();
        assert(ls[ls.len() - 1] == ls.last());
        assert forall|i: int| 0 <= i < init.len() implies init[i] != vm_marker(name) by {
            assert(ls[i] == init[i]);
        }
        unmanaged_lines_stay(init, name);
        assert(init.push(ls.last()) =~= ls);
    } else {
        assert(ls =~= Seq::<Seq<char>>::empty());
    }
}

/// Nothing that marks a block of a VM is left once its blocks are taken out.
pub proof fn stripped_text_holds_no_block(content: Seq<char>, name: Seq<char>)
    ensures
        !kept_lines(content, name).contains(vm_marker(name)),
        stripped(kept_lines(content, name), name) == (false, kept_lines(content, name)),
{
    lemma_stripped_members(lines_of(content), name);
    unmanaged_lines_stay(kept_lines(content, name), name);
}

/// Lines before a block are read as if the block were not there, and lines behind it too.
proof fn lemma_stripped_block(
    before: Seq<Seq<char>>,
    body: Seq<Seq<char>>,
    name: Seq<char>,
)
    requires
        !stripped(before, name).0,
        !body.contains(end_marker()),
    ensures
        stripped(before + seq![vm_marker(name)] + body, name) == (
            true,
            stripped(before, name).1,
        ),
    decreases body.len(),
{
    let whole = before + seq![vm_marker(name)] + body;
    if body.len() == 0 {
        assert(whole.drop_last() =~= before);
        assert(whole.last() == vm_marker(name));
    } else {
        let init = body.drop_last();
        assert(body[body.len() - 1] == body.last());
        assert forall|i: int| 0 <= i < init.len() implies init[i] != end_marker() by {
            assert(body[i] == init[i]);
        }
        lemma_stripped_block(before, init, name);
        assert(whole.drop_last() =~= before + seq![vm_marker(name)] + init);
        assert(whole.last() == body.last());
    }
}

proof fn lemma_stripped_closed(before: Seq<Seq<char>>, body: Seq<Seq<char>>, name: Seq<char>)
    requires
        !stripped(before, name).0,
        !body.contains(end_marker()),
    ensures
        stripped(before + seq![vm_marker(name)] + body + seq![end_marker()], name) == (
            false,
            stripped(before, name).1,
        ),
{
    lemma_stripped_block(before, body, name);
    let whole = before + seq![vm_marker(name)] + body + seq![end_marker()];
    assert(whole.drop_last() =~= before + seq![vm_marker(name)] + body);
}

/// Lines without the empty ones at their end.
pub open spec fn without_blank_end(ls: Seq<Seq<char>>) -> Seq<Seq<char>>
    decreases ls.len(),
{
    if ls.len() > 0 && ls.last().len() == 0 {
        without_blank_end(ls.drop_last())
    } else {
        ls
    }
}

/// The lines that the block of a VM is put behind: what was there before, and a blank line.
pub open spec fn base_lines(ls: Seq<Seq<char>>) -> Seq<Seq<char>> {
    without_blank_end(ls).push(Seq::empty())
}

proof fn lemma_without_blank_end(ls: Seq<Seq<char>>)
    ensures
        without_blank_end(ls).len() <= ls.len(),
        without_blank_end(ls) == ls.take(without_blank_end(ls).len() as int),
        without_blank_end(ls).len() > 0 ==> without_blank_end(ls).last().len() > 0,
        base_lines(base_lines(ls)) == base_lines(ls),
    decreases ls.len(),
{
    if ls.len() > 0 && ls.last().len() == 0 {
        lemma_without_blank_end(ls.drop_last());
        let n = without_blank_end(ls).len() as int;
        assert(ls.drop_last().take(n) =~= ls.take(n));
    } else {
        assert(ls.take(ls.len() as int) =~= ls);
    }
    let w = without_blank_end(ls);
    assert(base_lines(ls).drop_last() =~= w);
    assert(without_blank_end(w) == w);
}

/// The text of some lines without the line feeds at its end, where not all of them are empty, is
/// that of the lines without the empty ones at their end.
proof fn lemma_trimmed_unlines(ls: Seq<Seq<char>>)
    requires
        forall|i: int| 0 <= i < ls.len() ==> no_feed(#[trigger] ls[i]),
    ensures
        ({
            let t = trimmed_end_of(unlines(ls), '\n');
            let w = without_blank_end(ls);
            if w.len() == 0 {
                t.len() == 0
            } else {
                t.len() > 0 && t.push('\n') == unlines(w)
            }
        }),
    decreases ls.len(),
{
    if ls.len() == 0 {
        assert(trimmed_end_of(unlines(ls), '\n') =~= Seq::<char>::empty());
    } else {
        let init = ls.drop_last();
        let last = ls.last();
        let text = unlines(ls);
        assert(no_feed(ls[ls.len() - 1]));
        assert(text == unlines(init) + last.push('\n'));
        assert(text.drop_last() =~= unlines(init) + last);
        if last.len() == 0 {
            assert forall|i: int| 0 <= i < init.len() implies no_feed(#[trigger] init[i]) by {
                assert(init[i] == ls[i]);
            }
            lemma_trimmed_unlines(init);
            assert(text.drop_last() =~= unlines(init));
        } else {
            let t = text.drop_last();
            assert(t.last() == last.last());
            assert(trimmed_end_of(t, '\n') == t);
            assert(t.push('\n') =~= text);
        }
    }
}

/// The configuration with the block of a VM put in is the lines that were kept, up to the last
/// that is not blank, one blank line, and then the block.
pub proof fn one_blank_line_stands_before_the_block(
    content: Seq<char>,
    name: Seq<char>,
    alias: Seq<char>,
    user: Seq<char>,
    identity: Seq<char>,
)
    ensures
        upserted(content, name, alias, user, identity) == unlines(
            base_lines(kept_lines(content, name)),
        ) + unlines(
            seq![vm_marker(name)] + vm_body(name, alias, user, identity) + seq![end_marker()],
        ),
        base_lines(kept_lines(content, name)).last().len() == 0,
        ({
            let before = base_lines(kept_lines(content, name)).drop_last();
            before.len() > 0 ==> before.last().len() > 0
        }),
{
    let kept = kept_lines(content, name);
    let w = without_blank_end(kept);
    let t = trimmed_end_of(unlines(kept), '\n');
    let inner = unlines(
        seq![vm_marker(name)] + vm_body(name, alias, user, identity) + seq![end_marker()],
    );
    lemma_kept_no_feed(content, name);
    lemma_without_blank_end(kept);
    lemma_trimmed_unlines(kept);
    reveal_strlit("\n");
    assert("\n"@ =~= seq!['\n']);
    assert(base_lines(kept).drop_last() =~= w);
    assert(unlines(base_lines(kept)) == unlines(w) + Seq::<char>::empty().push('\n'));
    if w.len() == 0 {
        assert(unlines(w) =~= Seq::<char>::empty());
        assert(upserted(content, name, alias, user, identity) =~= unlines(base_lines(kept))
            + inner);
    } else {
        assert(t + "\n"@ =~= unlines(w));
        assert(upserted(content, name, alias, user, identity) =~= unlines(base_lines(kept))
            + inner);
    }
}

proof fn lemma_kept_no_feed(content: Seq<char>, name: Seq<char>)
    ensures
        forall|i: int|
            0 <= i < kept_lines(content, name).len() ==> no_feed(
                #[trigger] kept_lines(content, name)[i],
            ),
{
    lemma_lines_hold_no_feed(content);
    lemma_stripped_members(lines_of(content), name);
    let k = kept_lines(content, name);
    assert forall|i: int| 0 <= i < k.len() implies no_feed(#[trigger] k[i]) by {
        assert(lines_of(content).contains(k[i]));
        let j = choose|j: int| 0 <= j < lines_of(content).len() && lines_of(content)[j] == k[i];
        assert forall|m: int| 0 <= m < k[i].len() implies k[i][m] != '\n' by {
            assert(lines_of(content)[j][m] != '\n');
        }
    }
}

/// The lines of a configuration after the block of a VM was put in: what was kept of it, a blank
/// line, and then the block.
pub proof fn lemma_upserted_lines(
    content: Seq<char>,
    name: Seq<char>,
    alias: Seq<char>,
    user: Seq<char>,
    identity: Seq<char>,
)
    requires
        is_line(name),
        no_cr_lines(kept_lines(content, name)),
    ensures
        lines_of(upserted(content, name, alias, user, identity)) == base_lines(
            kept_lines(content, name),
        ) + seq![vm_marker(name)] + lines_of(unlines(vm_body(name, alias, user, identity)))
            + seq![end_marker()],
{
    let kept = kept_lines(content, name);
    let base = base_lines(kept);
    let body = vm_body(name, alias, user, identity);
    let mark = vm_marker(name);
    let end = end_marker();
    lemma_kept_no_feed(content, name);
    lemma_without_blank_end(kept);
    one_blank_line_stands_before_the_block(content, name, alias, user, identity);
    let text = upserted(content, name, alias, user, identity);
    let inner = unlines(seq![mark] + body + seq![end]);
    assert(text == unlines(base) + inner);
    assert(seq![mark] + body + seq![end] =~= seq![mark] + (body + seq![end]));
    lemma_unlines_concat(seq![mark], body + seq![end]);
    lemma_unlines_concat(body, seq![end]);
    assert(seq![mark].drop_last() =~= Seq::<Seq<char>>::empty());
    assert(unlines(seq![mark].drop_last()) =~= Seq::<char>::empty());
    assert(unlines(seq![mark]) =~= mark.push('\n'));
    assert(seq![end].drop_last() =~= Seq::<Seq<char>>::empty());
    assert(unlines(seq![end].drop_last()) =~= Seq::<char>::empty());
    assert(unlines(seq![end]) =~= end.push('\n'));
    lemma_unlines_ends(base);
    lemma_lines_of_concat(unlines(base), inner);
    assert forall|i: int| 0 <= i < base.len() implies is_line(#[trigger] base[i]) by {
        if i < without_blank_end(kept).len() {
            assert(base[i] == kept[i]);
            assert(no_feed(kept[i]));
        }
    }
    lines_read_back(base);
    assert(is_line(mark)) by {
        lemma_literal_marker(name);
    }
    lemma_lines_of_first(mark, unlines(body) + end.push('\n'));
    lemma_unlines_ends(body);
    lemma_lines_of_concat(unlines(body), end.push('\n'));
    assert(is_line(end)) by {
        lemma_literal_end();
    }
    lemma_lines_of_first(end, Seq::empty());
    assert(end.push('\n') + Seq::<char>::empty() =~= end.push('\n'));
    assert(lines_of(Seq::<char>::empty()) =~= Seq::<Seq<char>>::empty());
    assert(lines_of(text) =~= base + seq![mark] + lines_of(unlines(body)) + seq![end]);
}

proof fn lemma_literal_marker(name: Seq<char>)
    requires
        is_line(name),
    ensures
        is_line(vm_marker(name)),
{
    reveal_strlit("# mox-managed: ");
    reveal_with_fuel(feed_free, 16);
    let p = "# mox-managed: "@;
    lemma_feed_free(p, p.len());
    assert(p[14] == ' ');
    let m = vm_marker(name);
    assert forall|i: int| 0 <= i < m.len() implies m[i] != '\n' by {
        if i < p.len() {
            assert(m[i] == p[i]);
        } else {
            assert(m[i] == name[i - p.len()]);
        }
    }
    if name.len() > 0 {
        assert(m.last() == name.last());
    } else {
        assert(m.last() == p[14]);
    }
}

proof fn lemma_literal_end()
    ensures
        is_line(end_marker()),
{
    reveal_strlit("# mox-managed end");
    reveal_with_fuel(feed_free, 18);
    let p = "# mox-managed end"@;
    lemma_feed_free(p, p.len());
    assert(p[16] == 'd');
}

/// Putting the same block in again changes nothing.
pub proof fn upserting_is_idempotent(
    content: Seq<char>,
    name: Seq<char>,
    alias: Seq<char>,
    user: Seq<char>,
    identity: Seq<char>,
)
    requires
        is_line(name),
        closes_last(vm_body(name, alias, user, identity)),
        no_cr_lines(kept_lines(content, name)),
    ensures
        upserted(
            upserted(content, name, alias, user, identity),
            name,
            alias,
            user,
            identity,
        ) == upserted(content, name, alias, user, identity),
{
    replacing_leaves_the_rest(content, name, alias, user, identity);
    lemma_without_blank_end(kept_lines(content, name));
    one_blank_line_stands_before_the_block(content, name, alias, user, identity);
    one_blank_line_stands_before_the_block(
        upserted(content, name, alias, user, identity),
        name,
        alias,
        user,
        identity,
    );
}

/// What a configuration keeps beside the block of a VM does not depend on the block: taking it
/// out again leaves the lines that were there before it, and one blank line at their end.
pub proof fn replacing_leaves_the_rest(
    content: Seq<char>,
    name: Seq<char>,
    alias: Seq<char>,
    user: Seq<char>,
    identity: Seq<char>,
)
    requires
        is_line(name),
        closes_last(vm_body(name, alias, user, identity)),
        no_cr_lines(kept_lines(content, name)),
    ensures
        kept_lines(upserted(content, name, alias, user, identity), name) == base_lines(
            kept_lines(content, name),
        ),
{
    let kept = kept_lines(content, name);
    let base = base_lines(kept);
    lemma_upserted_lines(content, name, alias, user, identity);
    stripped_text_holds_no_block(content, name);
    lemma_without_blank_end(kept);
    reveal_strlit("# mox-managed: ");
    assert forall|i: int| 0 <= i < base.len() implies base[i] != vm_marker(name) by {
        if i < without_blank_end(kept).len() {
            assert(base[i] == kept[i]);
        } else {
            assert(base[i].len() == 0);
        }
    }
    unmanaged_lines_stay(base, name);
    lemma_stripped_closed(base, lines_of(unlines(vm_body(name, alias, user, identity))), name);
}

/// Taking the block of a VM out again restores a text that held none: its lines, with one blank
/// line in place of those at its end.
pub proof fn taking_the_block_out_restores_the_text(
    content: Seq<char>,
    name: Seq<char>,
    alias: Seq<char>,
    user: Seq<char>,
    identity: Seq<char>,
)
    requires
        is_line(name),
        closes_last(vm_body(name, alias, user, identity)),
        !lines_of(content).contains(vm_marker(name)),
        no_cr_lines(lines_of(content)),
    ensures
        kept_lines(upserted(content, name, alias, user, identity), name) == base_lines(
            lines_of(content),
        ),
{
    unmanaged_lines_stay(lines_of(content), name);
    replacing_leaves_the_rest(content, name, alias, user, identity);
}

proof fn lemma_markers_differ(name: Seq<char>)
    ensures
        vm_marker(name) != end_marker(),
{
    reveal_strlit("# mox-managed: ");
    reveal_strlit("# mox-managed end");
    assert(vm_marker(name)[13] == "# mox-managed: "@[13]);
    assert(end_marker()[13] == ' ');
}

proof fn lemma_stripped_concat(a: Seq<Seq<char>>, b: Seq<Seq<char>>, name: Seq<char>)
    requires
        !stripped(a, name).0,
    ensures
        stripped(a + b, name) == (
            stripped(b, name).0,
            stripped(a, name).1 + stripped(b, name).1,
        ),
    decreases b.len(),
{
    if b.len() == 0 {
        assert(a + b =~= a);
        assert(stripped(a, name).1 + stripped(b, name).1 =~= stripped(a, name).1);
    } else {
        assert((a + b).drop_last() =~= a + b.drop_last());
        lemma_stripped_concat(a, b.drop_last(), name);
        let kept = stripped(a, name).1;
        let more = stripped(b.drop_last(), name).1;
        assert((kept + more).push(b.last()) =~= kept + more.push(b.last()));
    }
}

/// Exactly the block is taken out: what stands before and behind it is left as if it had never
/// been there, the blocks of other VMs included.
pub proof fn only_the_block_is_taken_out(
    before: Seq<Seq<char>>,
    body: Seq<Seq<char>>,
    after: Seq<Seq<char>>,
    name: Seq<char>,
)
    requires
        !before.contains(vm_marker(name)),
        !body.contains(end_marker()),
        !after.contains(vm_marker(name)),
    ensures
        stripped(
            before + seq![vm_marker(name)] + body + seq![end_marker()] + after,
            name,
        ).1 == before + after,
{
    unmanaged_lines_stay(before, name);
    unmanaged_lines_stay(after, name);
    lemma_stripped_closed(before, body, name);
    lemma_stripped_concat(
        before + seq![vm_marker(name)] + body + seq![end_marker()],
        after,
        name,
    );
}

/// Where the alias, the user and the identity file are texts of one line, the block of a VM
/// holds its own markers alone.
pub proof fn one_line_parts_make_a_sound_block(
    name: Seq<char>,
    alias: Seq<char>,
    user: Seq<char>,
    identity: Seq<char>,
)
    requires
        no_feed(name),
        no_feed(alias),
        no_feed(user),
        no_feed(identity),
    ensures
        closes_last(vm_body(name, alias, user, identity)),
        !lines_of(unlines(vm_body(name, alias, user, identity))).contains(vm_marker(name)),
{
    let body = vm_body(name, alias, user, identity);
    reveal_strlit("Host ");
    reveal_strlit(" ");
    reveal_strlit("    HostName ");
    reveal_strlit("    User ");
    reveal_strlit("    IdentityFile ");
    reveal_strlit("    IdentitiesOnly yes");
    reveal_strlit("# mox-managed: ");
    reveal_strlit("# mox-managed end");
    reveal_with_fuel(feed_free, 24);
    lemma_feed_free("Host "@, "Host "@.len());
    lemma_feed_free(" "@, " "@.len());
    lemma_feed_free("    HostName "@, "    HostName "@.len());
    lemma_feed_free("    User "@, "    User "@.len());
    lemma_feed_free("    IdentityFile "@, "    IdentityFile "@.len());
    lemma_feed_free("    IdentitiesOnly yes"@, "    IdentitiesOnly yes"@.len());
    assert("Host "@[0] == 'H');
    assert("    HostName "@[0] == ' ');
    assert("    User "@[0] == ' ');
    assert("    IdentityFile "@[0] == ' ');
    assert("    IdentitiesOnly yes"@[0] == ' ');
    assert("# mox-managed: "@[0] == '#');
    assert("# mox-managed end"@[0] == '#');
    assert forall|i: int| 0 <= i < body.len() implies no_feed(#[trigger] body[i])
        && body[i].len() > 1 && body[i][0] != '#' by {}
    lemma_lines_of_unlines(body);
    let read = lines_of(unlines(body));
    assert forall|i: int| 0 <= i < read.len() implies read[i] != end_marker() && read[i]
        != vm_marker(name) by {
        assert(read[i] == without_cr(body[i]));
        assert(read[i][0] == body[i][0]);
        assert(vm_marker(name)[0] == '#');
    }
}

/// The pieces of a text of one line are of one line.
proof fn lemma_pieces_no_feed(s: Seq<char>, c: char)
    requires
        no_feed(s),
    ensures
        pieces(s, c).len() > 0,
        forall|i: int| 0 <= i < pieces(s, c).len() ==> no_feed(#[trigger] pieces(s, c)[i]),
    decreases s.len(),
{
    let n = find_char(s, c);
    if 0 <= n < s.len() {
        let rest = s.skip(n + 1);
        assert forall|i: int| 0 <= i < rest.len() implies rest[i] != '\n' by {
            assert(rest[i] == s[i + n + 1]);
        }
        lemma_pieces_no_feed(rest, c);
        assert forall|i: int| 0 <= i < pieces(s, c).len() implies no_feed(
            #[trigger] pieces(s, c)[i],
        ) by {
            if i > 0 {
                assert(pieces(s, c)[i] == pieces(rest, c)[i - 1]);
            } else {
                assert(pieces(s, c)[0] == s.take(n));
            }
        }
    }
}

/// The line that names the hosts of a subnet of one line is one line.
proof fn lemma_host_line(subnet: Seq<char>)
    requires
        no_feed(subnet),
    ensures
        no_feed("Host "@ + subnet_pattern(subnet)),
        is_line(subnet) ==> is_line("Host "@ + subnet_pattern(subnet)),
        ("Host "@ + subnet_pattern(subnet))[0] == 'H',
{
    reveal_strlit("Host ");
    reveal_strlit(".");
    reveal_strlit(".*");
    lemma_pieces_no_feed(subnet, '/');
    lemma_pieces_no_feed(pieces(subnet, '/')[0], '.');
    let octets = pieces(pieces(subnet, '/')[0], '.');
    let p = subnet_pattern(subnet);
    let l = "Host "@ + p;
    assert(no_feed("Host "@)) by {
        reveal_with_fuel(feed_free, 6);
        lemma_feed_free("Host "@, "Host "@.len());
    }
    assert("."@ =~= seq!['.']);
    assert(".*"@ =~= seq!['.', '*']);
    if octets.len() >= 3 {
        assert(no_feed(octets[0]) && no_feed(octets[1]) && no_feed(octets[2]));
        assert(p.last() == '*');
    }
    assert(no_feed(p));
    assert forall|i: int| 0 <= i < l.len() implies l[i] != '\n' by {
        if i >= 5 {
            assert(l[i] == p[i - 5]);
        } else {
            assert(l[i] == "Host "@[i]);
        }
    }
    if p.len() > 0 {
        assert(l.last() == p.last());
    } else {
        assert(l.last() == ' ');
    }
}

/// The lines of the subnet's block behind its marker.
spec fn subnet_rest(subnet: Seq<char>, user: Seq<char>, identity: Seq<char>) -> Seq<Seq<char>> {
    seq![
        "Host "@ + subnet_pattern(subnet),
        "    User "@ + user,
        "    IdentityFile "@ + identity,
        "    IdentitiesOnly yes"@,
        end_marker(),
    ]
}

/// The lines of a configuration that the block of the subnet was put into.
proof fn lemma_with_subnet_lines(
    content: Seq<char>,
    subnet: Seq<char>,
    user: Seq<char>,
    identity: Seq<char>,
)
    requires
        !has_subnet_block(content),
    ensures
        lines_of(with_subnet(content, subnet, user, identity)->0) == lines_of(
            trimmed_end_of(content, '\n').push('\n'),
        ) + (seq![subnet_marker()] + lines_of(unlines(subnet_rest(subnet, user, identity)))),
{
    let text = with_subnet(content, subnet, user, identity)->0;
    let t = trimmed_end_of(content, '\n');
    let rest = subnet_rest(subnet, user, identity);
    let block = seq![
        subnet_marker(),
        "Host "@ + subnet_pattern(subnet),
        "    User "@ + user,
        "    IdentityFile "@ + identity,
        "    IdentitiesOnly yes"@,
        end_marker(),
    ];
    reveal_strlit("\n");
    assert("\n"@ =~= seq!['\n']);
    assert(block =~= seq![subnet_marker()] + rest);
    lemma_unlines_concat(seq![subnet_marker()], rest);
    assert(seq![subnet_marker()].drop_last() =~= Seq::<Seq<char>>::empty());
    assert(unlines(seq![subnet_marker()].drop_last()) =~= Seq::<char>::empty());
    assert(unlines(seq![subnet_marker()]) =~= subnet_marker().push('\n'));
    assert(text =~= t.push('\n') + unlines(block));
    lemma_lines_of_concat(t.push('\n'), unlines(block));
    reveal_strlit("# mox-managed subnet");
    reveal_with_fuel(feed_free, 21);
    lemma_feed_free(subnet_marker(), subnet_marker().len());
    assert(subnet_marker()[19] == 't');
    lemma_lines_of_first(subnet_marker(), unlines(rest));
}

/// The block of the subnet is put in exactly where no line marks one. What was there stays, but
/// for line feeds at its end, and the block names the hosts of the subnet. Once it was put in, it
/// is found, so it is not put in again, whatever the subnet, the user or the identity file.
pub proof fn subnet_block_is_put_in_once(
    content: Seq<char>,
    subnet: Seq<char>,
    user: Seq<char>,
    identity: Seq<char>,
)
    ensures
        with_subnet(content, subnet, user, identity) is None <==> lines_of(content).contains(
            subnet_marker(),
        ),
        with_subnet(content, subnet, user, identity) matches Some(text) ==> {
            &&& trimmed_end_of(content, '\n').is_prefix_of(text)
            &&& is_line(subnet) ==> lines_of(text).contains("Host "@ + subnet_pattern(subnet))
            &&& forall|s: Seq<char>, u: Seq<char>, i: Seq<char>|
                #[trigger] with_subnet(text, s, u, i) is None
        },
{
    if let Some(text) = with_subnet(content, subnet, user, identity) {
        let t = trimmed_end_of(content, '\n');
        assert(text.take(t.len() as int) =~= t);
        lemma_with_subnet_lines(content, subnet, user, identity);
        let before = lines_of(t.push('\n'));
        let at = before.len() as int;
        assert(lines_of(text)[at] == subnet_marker());
        if is_line(subnet) {
            lemma_host_line(subnet);
            let rest = subnet_rest(subnet, user, identity);
            let host = "Host "@ + subnet_pattern(subnet);
            let more = rest.skip(1);
            assert(rest =~= seq![host] + more);
            lemma_unlines_concat(seq![host], more);
            assert(seq![host].drop_last() =~= Seq::<Seq<char>>::empty());
            assert(unlines(seq![host].drop_last()) =~= Seq::<char>::empty());
            assert(unlines(seq![host]) =~= host.push('\n'));
            lemma_lines_of_first(host, unlines(more));
            assert(lines_of(text)[at + 1] == host);
        }
    }
}

/// How often a line occurs.
pub open spec fn occurrences(ls: Seq<Seq<char>>, l: Seq<char>) -> nat
    decreases ls.len(),
{
    if ls.len() == 0 {
        0
    } else {
        occurrences(ls.drop_last(), l) + if ls.last() == l {
            1nat
        } else {
            0nat
        }
    }
}

proof fn lemma_occurrences_none(ls: Seq<Seq<char>>, l: Seq<char>)
    requires
        !ls.contains(l),
    ensures
        occurrences(ls, l) == 0,
    decreases ls.len(),
{
    if ls.len() > 0 {
        assert(ls[ls.len() - 1] == ls.last());
        let init = ls.drop_last();
        assert forall|i: int| 0 <= i < init.len() implies init[i] != l by {
            assert(ls[i] == init[i]);
        }
        lemma_occurrences_none(init, l);
    }
}

proof fn lemma_occurrences_concat(a: Seq<Seq<char>>, b: Seq<Seq<char>>, l: Seq<char>)
    ensures
        occurrences(a + b, l) == occurrences(a, l) + occurrences(b, l),
    decreases b.len(),
{
    if b.len() == 0 {
        assert(a + b =~= a);
    } else {
        assert((a + b).drop_last() =~= a + b.drop_last());
        lemma_occurrences_concat(a, b.drop_last(), l);
    }
}

/// However often a block was put in, the configuration holds it once: its marker stands on one
/// line.
pub proof fn one_block_is_left(
    content: Seq<char>,
    name: Seq<char>,
    alias: Seq<char>,
    user: Seq<char>,
    identity: Seq<char>,
)
    requires
        is_line(name),
        no_cr_lines(kept_lines(content, name)),
        !lines_of(unlines(vm_body(name, alias, user, identity))).contains(vm_marker(name)),
    ensures
        occurrences(
            lines_of(upserted(content, name, alias, user, identity)),
            vm_marker(name),
        ) == 1,
{
    let kept = kept_lines(content, name);
    let base = base_lines(kept);
    let mark = vm_marker(name);
    let body = lines_of(unlines(vm_body(name, alias, user, identity)));
    lemma_upserted_lines(content, name, alias, user, identity);
    stripped_text_holds_no_block(content, name);
    lemma_without_blank_end(kept);
    reveal_strlit("# mox-managed: ");
    assert forall|i: int| 0 <= i < base.len() implies base[i] != mark by {
        if i < without_blank_end(kept).len() {
            assert(base[i] == kept[i]);
        } else {
            assert(base[i].len() == 0);
        }
    }
    lemma_markers_differ(name);
    lemma_occurrences_none(base, mark);
    lemma_occurrences_none(body, mark);
    lemma_occurrences_concat(base, seq![mark], mark);
    lemma_occurrences_concat(base + seq![mark], body, mark);
    lemma_occurrences_concat(base + seq![mark] + body, seq![end_marker()], mark);
    assert(seq![mark].drop_last() =~= Seq::<Seq<char>>::empty());
    assert(seq![end_marker()].drop_last() =~= Seq::<Seq<char>>::empty());
    assert(occurrences(Seq::<Seq<char>>::empty(), mark) == 0);
    assert(occurrences(seq![mark], mark) == 1);
}

/// What is left of a text without the line feeds at its end is the text, or is followed by one.
proof fn lemma_trimmed_feeds(s: Seq<char>)
    ensures
        ({
            let t = trimmed_end_of(s, '\n');
            ||| s == t && (s.len() > 0 ==> s.last() != '\n')
            ||| t.len() < s.len() && s.take(t.len() as int) == t && s[t.len() as int] == '\n'
        }),
    decreases s.len(),
{
    if s.len() > 0 && s.last() == '\n' {
        let init = s.drop_last();
        lemma_trimmed_feeds(init);
        let n = trimmed_end_of(s, '\n').len() as int;
        if n < init.len() {
            assert(s.take(n) =~= init.take(n));
            assert(s[n] == init[n]);
        } else {
            assert(s.take(n) =~= init);
        }
    }
}

/// A line feed behind a text that does not end in one ends its last line, and takes a carriage
/// return at the end of that line with it.
proof fn lemma_lines_of_ended(s: Seq<char>)
    requires
        s.len() > 0,
        s.last() != '\n',
    ensures
        lines_of(s).len() > 0,
        lines_of(s.push('\n')) == lines_of(s).drop_last().push(without_cr(lines_of(s).last())),
    decreases s.len(),
{
    lemma_find_from(s, '\n', 0);
    let n = find_char(s, '\n');
    if n < s.len() {
        let head = s.take(n);
        let tail = s.skip(n + 1);
        assert(n != s.len() - 1);
        assert(tail.last() == s.last());
        lemma_lines_of_ended(tail);
        assert(s.push('\n') =~= head.push('\n') + tail.push('\n'));
        lemma_lines_of_first(head, tail.push('\n'));
        assert(lines_of(s) == seq![without_cr(head)] + lines_of(tail));
        assert(lines_of(s.push('\n')) =~= lines_of(s).drop_last().push(
            without_cr(lines_of(s).last()),
        ));
    } else {
        assert(s.push('\n') =~= s.push('\n') + Seq::<char>::empty());
        lemma_lines_of_first(s, Seq::empty());
        assert(lines_of(Seq::<char>::empty()) =~= Seq::<Seq<char>>::empty());
        assert(lines_of(s) == seq![s]);
        assert(lines_of(s.push('\n')) =~= lines_of(s).drop_last().push(
            without_cr(lines_of(s).last()),
        ));
    }
}

/// Where the block of the subnet was put in, its marker stands on one line. The subnet, the user
/// and the identity file are texts of one line each, and what was there does not end in the
/// marker and a carriage return, which the line feed before the block would make a line ending.
pub proof fn one_subnet_block_is_left(
    content: Seq<char>,
    subnet: Seq<char>,
    user: Seq<char>,
    identity: Seq<char>,
)
    requires
        no_feed(subnet),
        no_feed(user),
        no_feed(identity),
        content.len() > 0 && content.last() != '\n' ==> lines_of(content).last()
            != subnet_marker().push('\r'),
    ensures
        with_subnet(content, subnet, user, identity) matches Some(text) ==> occurrences(
            lines_of(text),
            subnet_marker(),
        ) == 1,
{
    if let Some(text) = with_subnet(content, subnet, user, identity) {
        let mark = subnet_marker();
        let t = trimmed_end_of(content, '\n');
        let before = lines_of(t.push('\n'));
        let rest = subnet_rest(subnet, user, identity);
        let body = lines_of(unlines(rest));
        lemma_with_subnet_lines(content, subnet, user, identity);
        assert(!before.contains(mark)) by {
            lemma_no_marker_before(content);
        }
        assert(!body.contains(mark)) by {
            lemma_no_marker_behind(subnet, user, identity);
        }
        lemma_occurrences_none(before, mark);
        lemma_occurrences_none(body, mark);
        lemma_occurrences_concat(before, seq![mark] + body, mark);
        lemma_occurrences_concat(seq![mark], body, mark);
        assert(seq![mark].drop_last() =~= Seq::<Seq<char>>::empty());
        assert(occurrences(Seq::<Seq<char>>::empty(), mark) == 0);
        assert(occurrences(seq![mark], mark) == 1);
    }
}

proof fn lemma_no_marker_before(content: Seq<char>)
    requires
        !has_subnet_block(content),
        content.len() > 0 && content.last() != '\n' ==> lines_of(content).last()
            != subnet_marker().push('\r'),
    ensures
        !lines_of(trimmed_end_of(content, '\n').push('\n')).contains(subnet_marker()),
{
    let mark = subnet_marker();
    let t = trimmed_end_of(content, '\n');
    let before = lines_of(t.push('\n'));
    let all = lines_of(content);
    reveal_strlit("# mox-managed subnet");
    lemma_trimmed_feeds(content);
    if t.len() == 0 {
        assert(t.push('\n') =~= Seq::<char>::empty().push('\n') + Seq::<char>::empty());
        lemma_lines_of_first(Seq::empty(), Seq::empty());
        assert(lines_of(Seq::<char>::empty()) =~= Seq::<Seq<char>>::empty());
        assert(before =~= seq![Seq::<char>::empty()]);
    } else if content == t {
        lemma_lines_of_ended(t);
        assert forall|i: int| 0 <= i < before.len() implies before[i] != mark by {
            if i < before.len() - 1 {
                assert(before[i] == all[i]);
            } else {
                let last = all.last();
                assert(last == all[all.len() - 1]);
                assert(before[i] == without_cr(last));
                if last.len() > 0 && last.last() == '\r' && last.drop_last() == mark {
                    assert(last =~= mark.push('\r'));
                }
            }
        }
    } else {
        let more = content.skip(t.len() as int + 1);
        assert(content =~= content.take(t.len() as int).push('\n') + more);
        lemma_lines_of_concat(t.push('\n'), more);
        assert forall|i: int| 0 <= i < before.len() implies before[i] != mark by {
            assert(all[i] == before[i]);
        }
    }
}

proof fn lemma_prefixed(p: Seq<char>, s: Seq<char>)
    requires
        no_feed(p),
        no_feed(s),
        p.len() > 1,
    ensures
        no_feed(p + s),
        (p + s).len() > 1,
        (p + s)[0] == p[0],
{
    assert forall|i: int| 0 <= i < (p + s).len() implies (p + s)[i] != '\n' by {
        if i < p.len() {
            assert((p + s)[i] == p[i]);
        } else {
            assert((p + s)[i] == s[i - p.len()]);
        }
    }
}

proof fn lemma_no_marker_behind(subnet: Seq<char>, user: Seq<char>, identity: Seq<char>)
    requires
        no_feed(subnet),
        no_feed(user),
        no_feed(identity),
    ensures
        !lines_of(unlines(subnet_rest(subnet, user, identity))).contains(subnet_marker()),
{
    let mark = subnet_marker();
    let rest = subnet_rest(subnet, user, identity);
    lemma_host_line(subnet);
    lemma_literal_end();
    assert(mark[0] == '#' && mark.len() == 20) by {
        reveal_strlit("# mox-managed subnet");
    }
    assert(end_marker().len() == 17) by {
        reveal_strlit("# mox-managed end");
    }
    assert(no_feed("    User "@) && "    User "@.len() == 9 && "    User "@[0] == ' ') by {
        reveal_strlit("    User ");
        reveal_with_fuel(feed_free, 10);
        lemma_feed_free("    User "@, "    User "@.len());
    }
    let id = "    IdentityFile "@;
    assert(no_feed(id) && id.len() == 17 && id[0] == ' ') by {
        reveal_strlit("    IdentityFile ");
        reveal_with_fuel(feed_free, 18);
        lemma_feed_free(id, id.len());
    }
    let only = "    IdentitiesOnly yes"@;
    assert(no_feed(only) && only.len() == 22 && only[0] == ' ') by {
        reveal_strlit("    IdentitiesOnly yes");
        reveal_with_fuel(feed_free, 23);
        lemma_feed_free(only, only.len());
    }
    lemma_prefixed("    User "@, user);
    lemma_prefixed(id, identity);
    assert(("Host "@ + subnet_pattern(subnet)).len() > 1) by {
        reveal_strlit("Host ");
    }
    assert forall|i: int| 0 <= i < rest.len() implies no_feed(#[trigger] rest[i]) && rest[i].len()
        > 1 && (rest[i][0] != '#' || rest[i].len() == 17) by {
        if i == 0 {
            assert(rest[i] == "Host "@ + subnet_pattern(subnet));
        } else if i == 1 {
            assert(rest[i] == "    User "@ + user);
        } else if i == 2 {
            assert(rest[i] == id + identity);
        } else if i == 3 {
            assert(rest[i] == only);
        } else {
            assert(rest[i] == end_marker());
        }
    }
    lemma_lines_of_unlines(rest);
    let read = lines_of(unlines(rest));
    assert forall|i: int| 0 <= i < read.len() implies read[i] != mark by {
        assert(read[i] == without_cr(rest[i]));
        assert(read[i][0] == rest[i][0]);
    }
}

// ---------------------------------------------------------------------------------------------
// What the blocks say.
/// The block of a VM leads to it: under its name and its alias, `ssh` goes to the alias, as the
/// user and with the identity file that were given, and with no other key. The block stands
/// between its markers, behind the lines that were kept, of which at most empty ones at the end
/// are gone, and behind one empty line.
pub proof fn the_block_leads_to_the_vm(
    content: Seq<char>,
    name: Seq<char>,
    alias: Seq<char>,
    user: Seq<char>,
    identity: Seq<char>,
)
    ensures
        ({
            let kept = kept_lines(content, name);
            let base = base_lines(kept);
            let n = base.len() - 1;
            &&& upserted(content, name, alias, user, identity) == unlines(base) + unlines(
                seq![
                    "# mox-managed: "@ + name,
                    "Host "@ + name + " "@ + alias,
                    "    HostName "@ + alias,
                    "    User "@ + user,
                    "    IdentityFile "@ + identity,
                    "    IdentitiesOnly yes"@,
                    "# mox-managed end"@,
                ],
            )
            &&& 0 <= n <= kept.len()
            &&& base == kept.take(n).push(Seq::empty())
            &&& forall|i: int| n <= i < kept.len() ==> (#[trigger] kept[i]).len() == 0
        }),
        vm_block(name, alias, user, identity) == "\n"@ + unlines(
            seq![
                "# mox-managed: "@ + name,
                "Host "@ + name + " "@ + alias,
                "    HostName "@ + alias,
                "    User "@ + user,
                "    IdentityFile "@ + identity,
                "    IdentitiesOnly yes"@,
                "# mox-managed end"@,
            ],
        ),
{
    one_blank_line_stands_before_the_block(content, name, alias, user, identity);
    lemma_without_blank_end(kept_lines(content, name));
    lemma_blank_end(kept_lines(content, name));
    assert(seq![vm_marker(name)] + vm_body(name, alias, user, identity) + seq![end_marker()]
        =~= seq![
        "# mox-managed: "@ + name,
        "Host "@ + name + " "@ + alias,
        "    HostName "@ + alias,
        "    User "@ + user,
        "    IdentityFile "@ + identity,
        "    IdentitiesOnly yes"@,
        "# mox-managed end"@,
    ]);
}

proof fn lemma_blank_end(ls: Seq<Seq<char>>)
    ensures
        forall|i: int|
            without_blank_end(ls).len() <= i < ls.len() ==> (#[trigger] ls[i]).len() == 0,
    decreases ls.len(),
{
    if ls.len() > 0 && ls.last().len() == 0 {
        let init = ls.drop_last();
        lemma_blank_end(init);
        assert forall|i: int| without_blank_end(ls).len() <= i < ls.len() implies (
        #[trigger] ls[i]).len() == 0 by {
            if i < init.len() {
                assert(init[i] == ls[i]);
            }
        }
    }
}

/// A line between the markers of a VM is gone with its block, and any line outside of blocks of
/// that VM stays, at its place among the others.
pub proof fn only_lines_of_the_block_are_gone(
    before: Seq<Seq<char>>,
    body: Seq<Seq<char>>,
    after: Seq<Seq<char>>,
    name: Seq<char>,
)
    requires
        !before.contains("# mox-managed: "@ + name),
        !body.contains("# mox-managed end"@),
        !after.contains("# mox-managed: "@ + name),
    ensures
        stripped(
            before + seq!["# mox-managed: "@ + name] + body + seq!["# mox-managed end"@] + after,
            name,
        ).1 == before + after,
        stripped(before, name).1 == before,
{
    only_the_block_is_taken_out(before, body, after, name);
    unmanaged_lines_stay(before, name);
}

/// A subnet of four numbers stands for the hosts with its first three, whatever its fourth number
/// and its prefix length. A text without dots stands for itself.
pub proof fn a_subnet_stands_for_its_hosts(
    a: u8,
    b: u8,
    c: u8,
    d: u8,
    prefix: Seq<char>,
    name: Seq<char>,
)
    requires
        forall|i: int| 0 <= i < name.len() ==> name[i] != '.' && name[i] != '/',
    ensures
        subnet_pattern(dotted(a, b, c, d).push('/') + prefix) == decimal(a as nat) + "."@ + decimal(
            b as nat,
        ) + "."@ + decimal(c as nat) + ".*"@,
        subnet_pattern(dotted(a, b, c, d)) == decimal(a as nat) + "."@ + decimal(b as nat) + "."@
            + decimal(c as nat) + ".*"@,
        subnet_pattern(name) == name,
{
    let ip = dotted(a, b, c, d);
    lemma_dotted_pieces(a, b, c, d);
    lemma_first_piece(ip, prefix, '/');
    lemma_first_piece(name, Seq::empty(), '/');
    lemma_first_piece(name, Seq::empty(), '.');
}

/// The block of the subnet leads to its hosts: as the user and with the identity file that were
/// given, and with no other key.
pub proof fn the_subnet_block_leads_to_its_hosts(
    content: Seq<char>,
    subnet: Seq<char>,
    user: Seq<char>,
    identity: Seq<char>,
)
    requires
        !lines_of(content).contains("# mox-managed subnet"@),
    ensures
        with_subnet(content, subnet, user, identity) == Some(
            trimmed_end_of(content, '\n') + ("\n"@ + unlines(
                seq![
                    "# mox-managed subnet"@,
                    "Host "@ + subnet_pattern(subnet),
                    "    User "@ + user,
                    "    IdentityFile "@ + identity,
                    "    IdentitiesOnly yes"@,
                    "# mox-managed end"@,
                ],
            )),
        ),
{
}

/// Every block of a VM is taken out, however many there are, and what stands between them stays. A
/// block without an end reaches to the end of the text.
pub proof fn every_block_is_taken_out(
    before: Seq<Seq<char>>,
    body: Seq<Seq<char>>,
    after: Seq<Seq<char>>,
    name: Seq<char>,
)
    requires
        !stripped(before, name).0,
        !body.contains("# mox-managed end"@),
    ensures
        stripped(
            before + seq!["# mox-managed: "@ + name] + body + seq!["# mox-managed end"@] + after,
            name,
        ).1 == stripped(before, name).1 + stripped(after, name).1,
        stripped(before + seq!["# mox-managed: "@ + name] + body, name).1 == stripped(
            before,
            name,
        ).1,
        !stripped(
            before + seq!["# mox-managed: "@ + name] + body + seq!["# mox-managed end"@],
            name,
        ).0,
{
    lemma_stripped_block(before, body, name);
    lemma_stripped_closed(before, body, name);
    lemma_stripped_concat(
        before + seq![vm_marker(name)] + body + seq![end_marker()],
        after,
        name,
    );
}

} // verus!
