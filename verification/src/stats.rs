use vstd::prelude::*;

use crate::render_log::RenderLog;

verus! {

/// The decimal digit of `d`, for `0 <= d < 10`.
pub open spec fn digit_char(d: int) -> char {
    if d == 0 {
        '0'
    } else if d == 1 {
        '1'
    } else if d == 2 {
        '2'
    } else if d == 3 {
        '3'
    } else if d == 4 {
        '4'
    } else if d == 5 {
        '5'
    } else if d == 6 {
        '6'
    } else if d == 7 {
        '7'
    } else if d == 8 {
        '8'
    } else {
        '9'
    }
}

/// The decimal writing of a natural number, without leading zeros.
pub open spec fn nat_decimal(n: nat) -> Seq<char>
    decreases n,
{
    if n < 10 {
        seq![digit_char(n as int)]
    } else {
        nat_decimal(n / 10) + seq![digit_char((n % 10) as int)]
    }
}

/// The decimal writing of an integer, with a leading `-` when negative.
pub open spec fn decimal(n: int) -> Seq<char> {
    if n < 0 {
        seq!['-'] + nat_decimal((-n) as nat)
    } else {
        nat_decimal(n as nat)
    }
}

fn digit(d: u64) -> (c: char)
    requires
        d < 10,
    ensures
        c == digit_char(d as int),
{
    if d == 0 {
        '0'
    } else if d == 1 {
        '1'
    } else if d == 2 {
        '2'
    } else if d == 3 {
        '3'
    } else if d == 4 {
        '4'
    } else if d == 5 {
        '5'
    } else if d == 6 {
        '6'
    } else if d == 7 {
        '7'
    } else if d == 8 {
        '8'
    } else {
        '9'
    }
}

/// Appends the decimal writing of `n` to `out`.
fn push_nat_decimal(out: &mut String, n: u64)
    ensures
        final(out)@ == old(out)@ + nat_decimal(n as nat),
    decreases n,
{
    if n < 10 {
        out.push(digit(n));
    } else {
        push_nat_decimal(out, n / 10);
        out.push(digit(n % 10));
    }
    proof {
        assert(final(out)@ =~= old(out)@ + nat_decimal(n as nat)) by {
            if n >= 10 {
                assert(nat_decimal(n as nat) == nat_decimal((n / 10) as nat) + seq![digit_char((n % 10) as int)]);
            }
        }
    }
}

/// Appends the decimal writing of `n` to `out`.
pub fn push_decimal(out: &mut String, n: i64)
    ensures
        final(out)@ == old(out)@ + decimal(n as int),
{
    if n < 0 {
        out.push('-');
        let magnitude: u64 = if n == i64::MIN {
            9223372036854775808u64
        } else {
            (-n) as u64
        };
        push_nat_decimal(out, magnitude);
        proof {
            assert(final(out)@ =~= old(out)@ + decimal(n as int));
        }
    } else {
        push_nat_decimal(out, n as u64);
    }
}

/// The "Render" part of the frame statistics overlay: the counters of the
/// last frame's render log, the assets being loaded (not tracked yet, shown
/// as `TODO`) and the number of running background tasks, one per line,
/// each line indented by one space.
pub open spec fn spec_render_stats_text(log: RenderLog, task_count: int) -> Seq<char> {
    "Render:\n Elements  : "@ + decimal(log@.elements) + "\n Sprites   : "@ + decimal(
        log@.textures,
    ) + "\n Sprite not found: "@ + decimal(log@.textures_not_found) + "\n Meshes    : "@
        + decimal(log@.meshes) + "\n Texts     : "@ + decimal(log@.texts) + "\n Draw calls: "@
        + decimal(log@.draw_calls) + "\n In loading assets: TODO\n Task count: "@ + decimal(
        task_count,
    )
}

/// The "Render" part of the frame statistics overlay, as
/// [`spec_render_stats_text`] states.
pub fn render_stats_text(log: &RenderLog, task_count: usize) -> (s: String)
    ensures
        s@ == spec_render_stats_text(*log, task_count as int),
{
    let mut s = String::new();
    s.append("Render:\n Elements  : ");
    push_decimal(&mut s, log.elements() as i64);
    s.append("\n Sprites   : ");
    push_decimal(&mut s, log.textures() as i64);
    s.append("\n Sprite not found: ");
    push_decimal(&mut s, log.textures_not_found() as i64);
    s.append("\n Meshes    : ");
    push_decimal(&mut s, log.meshes() as i64);
    s.append("\n Texts     : ");
    push_decimal(&mut s, log.texts() as i64);
    s.append("\n Draw calls: ");
    push_decimal(&mut s, log.draw_calls() as i64);
    s.append("\n In loading assets: TODO\n Task count: ");
    push_nat_decimal(&mut s, task_count as u64);
    proof {
        assert(s@ =~= spec_render_stats_text(*log, task_count as int));
    }
    s
}

/// `text` holds a line made of `label` followed by `value`: the value ends
/// the text or is followed by a line break.
pub open spec fn shows(text: Seq<char>, label: Seq<char>, value: Seq<char>) -> bool {
    exists|i: int|
        0 <= i && i + label.len() + value.len() <= text.len() && #[trigger] text.subrange(
            i,
            i + label.len(),
        ) == label && text.subrange(i + label.len(), i + label.len() + value.len()) == value && (
        i + label.len() + value.len() == text.len() || text[i + label.len() + value.len()] == '\n')
}

proof fn lemma_shows(pre: Seq<char>, label: Seq<char>, value: Seq<char>, post: Seq<char>)
    requires
        post.len() == 0 || post[0] == '\n',
    ensures
        shows(pre + label + value + post, label, value),
{
    let text = pre + label + value + post;
    let i = pre.len() as int;
    assert(text.subrange(i, i + label.len()) =~= label);
    assert(text.subrange(i + label.len(), i + label.len() + value.len()) =~= value);
    if post.len() > 0 {
        assert(text[i + label.len() + value.len()] == post[0]);
    }
}

/// The overlay text, cut at the line of `label` (the `k`-th label): the text
/// before the label, and after its value.
proof fn lemma_line_split(
    t: Seq<char>,
    pre: Seq<char>,
    head: Seq<char>,
    label: Seq<char>,
    value: Seq<char>,
    post: Seq<char>,
)
    requires
        t == pre + (head + label) + value + post,
        post.len() == 0 || post[0] == '\n',
    ensures
        shows(t, label, value),
{
    assert(t =~= (pre + head) + label + value + post);
    lemma_shows(pre + head, label, value, post);
}

proof fn lemma_assoc(x: Seq<char>, y: Seq<char>, z: Seq<char>)
    ensures
        (x + y) + z == x + (y + z),
{
    assert((x + y) + z =~= x + (y + z));
}

#[verifier::rlimit(50)]
proof fn lemma_line_elements(log: RenderLog, task_count: int)
    ensures
        shows(spec_render_stats_text(log, task_count), "Elements  : "@, decimal(log@.elements)),
{
    let lit0 = "Render:\n Elements  : "@;
    let val0 = decimal(log@.elements);
    let lit1 = "\n Sprites   : "@;
    let val1 = decimal(log@.textures);
    let lit2 = "\n Sprite not found: "@;
    let val2 = decimal(log@.textures_not_found);
    let lit3 = "\n Meshes    : "@;
    let val3 = decimal(log@.meshes);
    let lit4 = "\n Texts     : "@;
    let val4 = decimal(log@.texts);
    let lit5 = "\n Draw calls: "@;
    let val5 = decimal(log@.draw_calls);
    let lit6 = "\n In loading assets: TODO\n Task count: "@;
    let val6 = decimal(task_count);
    reveal_strlit("Render:\n Elements  : ");
    reveal_strlit("Elements  : ");
    reveal_strlit("Render:\n ");
    reveal_strlit("\n Sprites   : ");
    assert(lit0 =~= "Render:\n "@ + "Elements  : "@);
    let t = spec_render_stats_text(log, task_count);
    let x = lit0 + val0;
    assert(lit0 + val0 == Seq::<char>::empty() + lit0 + val0) by { assert(lit0 + val0 =~= Seq::<char>::empty() + lit0 + val0); }
    let p0 = lit1;
    lemma_assoc(x, p0, val1);
    let p1 = p0 + val1;
    lemma_assoc(x, p1, lit2);
    let p2 = p1 + lit2;
    lemma_assoc(x, p2, val2);
    let p3 = p2 + val2;
    lemma_assoc(x, p3, lit3);
    let p4 = p3 + lit3;
    lemma_assoc(x, p4, val3);
    let p5 = p4 + val3;
    lemma_assoc(x, p5, lit4);
    let p6 = p5 + lit4;
    lemma_assoc(x, p6, val4);
    let p7 = p6 + val4;
    lemma_assoc(x, p7, lit5);
    let p8 = p7 + lit5;
    lemma_assoc(x, p8, val5);
    let p9 = p8 + val5;
    lemma_assoc(x, p9, lit6);
    let p10 = p9 + lit6;
    lemma_assoc(x, p10, val6);
    let p11 = p10 + val6;
    assert(t == x + p11);
    assert(p11[0] == lit1[0]);
    lemma_line_split(t, Seq::<char>::empty(), "Render:\n "@, "Elements  : "@, val0, p11);
}

#[verifier::rlimit(50)]
proof fn lemma_line_sprites(log: RenderLog, task_count: int)
    ensures
        shows(spec_render_stats_text(log, task_count), "Sprites   : "@, decimal(log@.textures)),
{
    let lit0 = "Render:\n Elements  : "@;
    let val0 = decimal(log@.elements);
    let lit1 = "\n Sprites   : "@;
    let val1 = decimal(log@.textures);
    let lit2 = "\n Sprite not found: "@;
    let val2 = decimal(log@.textures_not_found);
    let lit3 = "\n Meshes    : "@;
    let val3 = decimal(log@.meshes);
    let lit4 = "\n Texts     : "@;
    let val4 = decimal(log@.texts);
    let lit5 = "\n Draw calls: "@;
    let val5 = decimal(log@.draw_calls);
    let lit6 = "\n In loading assets: TODO\n Task count: "@;
    let val6 = decimal(task_count);
    reveal_strlit("\n Sprites   : ");
    reveal_strlit("Sprites   : ");
    reveal_strlit("\n ");
    reveal_strlit("\n Sprite not found: ");
    assert(lit1 =~= "\n "@ + "Sprites   : "@);
    let t = spec_render_stats_text(log, task_count);
    let x = lit0 + val0 + lit1 + val1;
    let p0 = lit2;
    lemma_assoc(x, p0, val2);
    let p1 = p0 + val2;
    lemma_assoc(x, p1, lit3);
    let p2 = p1 + lit3;
    lemma_assoc(x, p2, val3);
    let p3 = p2 + val3;
    lemma_assoc(x, p3, lit4);
    let p4 = p3 + lit4;
    lemma_assoc(x, p4, val4);
    let p5 = p4 + val4;
    lemma_assoc(x, p5, lit5);
    let p6 = p5 + lit5;
    lemma_assoc(x, p6, val5);
    let p7 = p6 + val5;
    lemma_assoc(x, p7, lit6);
    let p8 = p7 + lit6;
    lemma_assoc(x, p8, val6);
    let p9 = p8 + val6;
    assert(t == x + p9);
    assert(p9[0] == lit2[0]);
    lemma_line_split(t, lit0 + val0, "\n "@, "Sprites   : "@, val1, p9);
}

#[verifier::rlimit(50)]
proof fn lemma_line_sprites_not_found(log: RenderLog, task_count: int)
    ensures
        shows(spec_render_stats_text(log, task_count), "Sprite not found: "@, decimal(log@.textures_not_found)),
{
    let lit0 = "Render:\n Elements  : "@;
    let val0 = decimal(log@.elements);
    let lit1 = "\n Sprites   : "@;
    let val1 = decimal(log@.textures);
    let lit2 = "\n Sprite not found: "@;
    let val2 = decimal(log@.textures_not_found);
    let lit3 = "\n Meshes    : "@;
    let val3 = decimal(log@.meshes);
    let lit4 = "\n Texts     : "@;
    let val4 = decimal(log@.texts);
    let lit5 = "\n Draw calls: "@;
    let val5 = decimal(log@.draw_calls);
    let lit6 = "\n In loading assets: TODO\n Task count: "@;
    let val6 = decimal(task_count);
    reveal_strlit("\n Sprite not found: ");
    reveal_strlit("Sprite not found: ");
    reveal_strlit("\n ");
    reveal_strlit("\n Meshes    : ");
    assert(lit2 =~= "\n "@ + "Sprite not found: "@);
    let t = spec_render_stats_text(log, task_count);
    let x = lit0 + val0 + lit1 + val1 + lit2 + val2;
    let p0 = lit3;
    lemma_assoc(x, p0, val3);
    let p1 = p0 + val3;
    lemma_assoc(x, p1, lit4);
    let p2 = p1 + lit4;
    lemma_assoc(x, p2, val4);
    let p3 = p2 + val4;
    lemma_assoc(x, p3, lit5);
    let p4 = p3 + lit5;
    lemma_assoc(x, p4, val5);
    let p5 = p4 + val5;
    lemma_assoc(x, p5, lit6);
    let p6 = p5 + lit6;
    lemma_assoc(x, p6, val6);
    let p7 = p6 + val6;
    assert(t == x + p7);
    assert(p7[0] == lit3[0]);
    lemma_line_split(t, lit0 + val0 + lit1 + val1, "\n "@, "Sprite not found: "@, val2, p7);
}

#[verifier::rlimit(50)]
proof fn lemma_line_meshes(log: RenderLog, task_count: int)
    ensures
        shows(spec_render_stats_text(log, task_count), "Meshes    : "@, decimal(log@.meshes)),
{
    let lit0 = "Render:\n Elements  : "@;
    let val0 = decimal(log@.elements);
    let lit1 = "\n Sprites   : "@;
    let val1 = decimal(log@.textures);
    let lit2 = "\n Sprite not found: "@;
    let val2 = decimal(log@.textures_not_found);
    let lit3 = "\n Meshes    : "@;
    let val3 = decimal(log@.meshes);
    let lit4 = "\n Texts     : "@;
    let val4 = decimal(log@.texts);
    let lit5 = "\n Draw calls: "@;
    let val5 = decimal(log@.draw_calls);
    let lit6 = "\n In loading assets: TODO\n Task count: "@;
    let val6 = decimal(task_count);
    reveal_strlit("\n Meshes    : ");
    reveal_strlit("Meshes    : ");
    reveal_strlit("\n ");
    reveal_strlit("\n Texts     : ");
    assert(lit3 =~= "\n "@ + "Meshes    : "@);
    let t = spec_render_stats_text(log, task_count);
    let x = lit0 + val0 + lit1 + val1 + lit2 + val2 + lit3 + val3;
    let p0 = lit4;
    lemma_assoc(x, p0, val4);
    let p1 = p0 + val4;
    lemma_assoc(x, p1, lit5);
    let p2 = p1 + lit5;
    lemma_assoc(x, p2, val5);
    let p3 = p2 + val5;
    lemma_assoc(x, p3, lit6);
    let p4 = p3 + lit6;
    lemma_assoc(x, p4, val6);
    let p5 = p4 + val6;
    assert(t == x + p5);
    assert(p5[0] == lit4[0]);
    lemma_line_split(t, lit0 + val0 + lit1 + val1 + lit2 + val2, "\n "@, "Meshes    : "@, val3, p5);
}

#[verifier::rlimit(50)]
proof fn lemma_line_texts(log: RenderLog, task_count: int)
    ensures
        shows(spec_render_stats_text(log, task_count), "Texts     : "@, decimal(log@.texts)),
{
    let lit0 = "Render:\n Elements  : "@;
    let val0 = decimal(log@.elements);
    let lit1 = "\n Sprites   : "@;
    let val1 = decimal(log@.textures);
    let lit2 = "\n Sprite not found: "@;
    let val2 = decimal(log@.textures_not_found);
    let lit3 = "\n Meshes    : "@;
    let val3 = decimal(log@.meshes);
    let lit4 = "\n Texts     : "@;
    let val4 = decimal(log@.texts);
    let lit5 = "\n Draw calls: "@;
    let val5 = decimal(log@.draw_calls);
    let lit6 = "\n In loading assets: TODO\n Task count: "@;
    let val6 = decimal(task_count);
    reveal_strlit("\n Texts     : ");
    reveal_strlit("Texts     : ");
    reveal_strlit("\n ");
    reveal_strlit("\n Draw calls: ");
    assert(lit4 =~= "\n "@ + "Texts     : "@);
    let t = spec_render_stats_text(log, task_count);
    let x = lit0 + val0 + lit1 + val1 + lit2 + val2 + lit3 + val3 + lit4 + val4;
    let p0 = lit5;
    lemma_assoc(x, p0, val5);
    let p1 = p0 + val5;
    lemma_assoc(x, p1, lit6);
    let p2 = p1 + lit6;
    lemma_assoc(x, p2, val6);
    let p3 = p2 + val6;
    assert(t == x + p3);
    assert(p3[0] == lit5[0]);
    lemma_line_split(t, lit0 + val0 + lit1 + val1 + lit2 + val2 + lit3 + val3, "\n "@, "Texts     : "@, val4, p3);
}

#[verifier::rlimit(50)]
proof fn lemma_line_draw_calls(log: RenderLog, task_count: int)
    ensures
        shows(spec_render_stats_text(log, task_count), "Draw calls: "@, decimal(log@.draw_calls)),
{
    let lit0 = "Render:\n Elements  : "@;
    let val0 = decimal(log@.elements);
    let lit1 = "\n Sprites   : "@;
    let val1 = decimal(log@.textures);
    let lit2 = "\n Sprite not found: "@;
    let val2 = decimal(log@.textures_not_found);
    let lit3 = "\n Meshes    : "@;
    let val3 = decimal(log@.meshes);
    let lit4 = "\n Texts     : "@;
    let val4 = decimal(log@.texts);
    let lit5 = "\n Draw calls: "@;
    let val5 = decimal(log@.draw_calls);
    let lit6 = "\n In loading assets: TODO\n Task count: "@;
    let val6 = decimal(task_count);
    reveal_strlit("\n Draw calls: ");
    reveal_strlit("Draw calls: ");
    reveal_strlit("\n ");
    reveal_strlit("\n In loading assets: TODO\n Task count: ");
    assert(lit5 =~= "\n "@ + "Draw calls: "@);
    let t = spec_render_stats_text(log, task_count);
    let x = lit0 + val0 + lit1 + val1 + lit2 + val2 + lit3 + val3 + lit4 + val4 + lit5 + val5;
    let p0 = lit6;
    lemma_assoc(x, p0, val6);
    let p1 = p0 + val6;
    assert(t == x + p1);
    assert(p1[0] == lit6[0]);
    lemma_line_split(t, lit0 + val0 + lit1 + val1 + lit2 + val2 + lit3 + val3 + lit4 + val4, "\n "@, "Draw calls: "@, val5, p1);
}

#[verifier::rlimit(50)]
proof fn lemma_line_task_count(log: RenderLog, task_count: int)
    ensures
        shows(spec_render_stats_text(log, task_count), "Task count: "@, decimal(task_count)),
{
    let lit0 = "Render:\n Elements  : "@;
    let val0 = decimal(log@.elements);
    let lit1 = "\n Sprites   : "@;
    let val1 = decimal(log@.textures);
    let lit2 = "\n Sprite not found: "@;
    let val2 = decimal(log@.textures_not_found);
    let lit3 = "\n Meshes    : "@;
    let val3 = decimal(log@.meshes);
    let lit4 = "\n Texts     : "@;
    let val4 = decimal(log@.texts);
    let lit5 = "\n Draw calls: "@;
    let val5 = decimal(log@.draw_calls);
    let lit6 = "\n In loading assets: TODO\n Task count: "@;
    let val6 = decimal(task_count);
    reveal_strlit("\n In loading assets: TODO\n Task count: ");
    reveal_strlit("Task count: ");
    reveal_strlit("\n In loading assets: TODO\n ");
    assert(lit6 =~= "\n In loading assets: TODO\n "@ + "Task count: "@);
    let t = spec_render_stats_text(log, task_count);
    let x = lit0 + val0 + lit1 + val1 + lit2 + val2 + lit3 + val3 + lit4 + val4 + lit5 + val5 + lit6 + val6;
    assert(t == x + Seq::<char>::empty()) by { assert(t =~= x + Seq::<char>::empty()); }
    lemma_line_split(t, lit0 + val0 + lit1 + val1 + lit2 + val2 + lit3 + val3 + lit4 + val4 + lit5 + val5, "\n In loading assets: TODO\n "@, "Task count: "@, val6, Seq::<char>::empty());
}

/// Every line of the overlay shows the counter its label names, written in
/// decimal: elements, sprites (textures), sprites not found, meshes, texts,
/// draw calls, and the number of running tasks.
pub proof fn law_overlay_lines_show_their_counters(log: RenderLog, task_count: int)
    ensures
        shows(spec_render_stats_text(log, task_count), "Elements  : "@, decimal(log@.elements)),
        shows(spec_render_stats_text(log, task_count), "Sprites   : "@, decimal(log@.textures)),
        shows(spec_render_stats_text(log, task_count), "Sprite not found: "@, decimal(log@.textures_not_found)),
        shows(spec_render_stats_text(log, task_count), "Meshes    : "@, decimal(log@.meshes)),
        shows(spec_render_stats_text(log, task_count), "Texts     : "@, decimal(log@.texts)),
        shows(spec_render_stats_text(log, task_count), "Draw calls: "@, decimal(log@.draw_calls)),
        shows(spec_render_stats_text(log, task_count), "Task count: "@, decimal(task_count)),
{
    lemma_line_elements(log, task_count);
    lemma_line_sprites(log, task_count);
    lemma_line_sprites_not_found(log, task_count);
    lemma_line_meshes(log, task_count);
    lemma_line_texts(log, task_count);
    lemma_line_draw_calls(log, task_count);
    lemma_line_task_count(log, task_count);
}

} // verus!
