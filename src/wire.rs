use vstd::prelude::*;

use crate::message::{ConnId, IpAddress, Message, ScopeKind};

verus! {

/// The digit character for `d`, lower-case for values above nine.
pub open spec fn digit_char(d: nat) -> char {
    if d < 10 {
        (('0' as nat) + d) as char
    } else {
        (('a' as nat) + d - 10) as char
    }
}

/// `n` written in `base` (from 2 to 16) with no leading zeros ("0" for
/// zero).
pub open spec fn digits(n: nat, base: nat) -> Seq<char>
    decreases n
    via digits_decreases
{
    if base < 2 || n < base {
        seq![digit_char(n)]
    } else {
        digits(n / base, base).push(digit_char(n % base))
    }
}

#[via_fn]
proof fn digits_decreases(n: nat, base: nat) {
    if !(base < 2 || n < base) {
        assert(n / base < n) by (nonlinear_arith)
            requires
                base >= 2,
                n >= base,
        ;
    }
}

/// The text of an address: dotted decimal for IPv4, eight colon-separated
/// hexadecimal groups for IPv6.
pub open spec fn ip_text(ip: IpAddress) -> Seq<char> {
    match ip {
        IpAddress::V4(a, b, c, d) => digits(a as nat, 10) + seq!['.'] + digits(b as nat, 10)
            + seq!['.'] + digits(c as nat, 10) + seq!['.'] + digits(d as nat, 10),
        IpAddress::V6(a, b, c, d, e, f, g, h) => digits(a as nat, 16) + seq![':'] + digits(
            b as nat,
            16,
        ) + seq![':'] + digits(c as nat, 16) + seq![':'] + digits(d as nat, 16) + seq![':']
            + digits(e as nat, 16) + seq![':'] + digits(f as nat, 16) + seq![':'] + digits(
            g as nat,
            16,
        ) + seq![':'] + digits(h as nat, 16),
    }
}

/// The text of a connection identity: `a.b.c.d:port` or `[g:...:g]:port`.
pub open spec fn id_text(id: ConnId) -> Seq<char> {
    match id.ip {
        IpAddress::V4(..) => ip_text(id.ip) + seq![':'] + digits(id.port as nat, 10),
        IpAddress::V6(..) => seq!['['] + ip_text(id.ip) + seq![']', ':'] + digits(
            id.port as nat,
            10,
        ),
    }
}

/// Identities separated by commas, inside brackets.
pub open spec fn ids_inner(s: Seq<ConnId>) -> Seq<char>
    decreases s.len(),
{
    if s.len() == 0 {
        Seq::empty()
    } else if s.len() == 1 {
        id_text(s[0])
    } else {
        ids_inner(s.drop_last()) + seq![','] + id_text(s.last())
    }
}

pub open spec fn ids_text(s: Seq<ConnId>) -> Seq<char> {
    seq!['['] + ids_inner(s) + seq![']']
}

pub open spec fn scope_text(k: ScopeKind) -> Seq<char> {
    match k {
        ScopeKind::All => "ALL"@,
        ScopeKind::Except => "EXCEPT"@,
        ScopeKind::Only => "ONLY"@,
    }
}

/// ` except=[...]` where the set is present, nothing where it is not.
pub open spec fn set_text(label: Seq<char>, s: Option<Vec<ConnId>>) -> Seq<char> {
    match s {
        Some(v) => seq![' '] + label + seq!['='] + ids_text(v@),
        None => Seq::empty(),
    }
}

/// What an outbound actor writes for `m`: sender, scope, the sets that are
/// present, then the raw text.
pub open spec fn render(m: Message) -> Seq<char> {
    "message: sender="@ + id_text(m.sender) + " scope="@ + scope_text(m.scope) + set_text(
        "except"@,
        m.except_ids,
    ) + set_text("only"@, m.include_ids) + " text="@ + m.text@
}

/// Appends the digit for `d`.
fn push_digit(out: &mut String, d: u64)
    requires
        d < 16,
    ensures
        final(out)@ == old(out)@.push(digit_char(d as nat)),
{
    let table = "0123456789abcdef";
    proof {
        reveal_strlit("0123456789abcdef");
    }
    let one = table.substring_char(d as usize, (d + 1) as usize);
    assert(one@ =~= seq![digit_char(d as nat)]);
    out.append(one);
}

/// Appends `n` written in `base`.
fn push_digits(out: &mut String, n: u64, base: u64)
    requires
        2 <= base <= 16,
    ensures
        final(out)@ == old(out)@ + digits(n as nat, base as nat),
    decreases n,
{
    if n < base {
        push_digit(out, n);
    } else {
        assert(n / base < n) by (nonlinear_arith)
            requires
                base >= 2,
                n >= base,
        ;
        push_digits(out, n / base, base);
        push_digit(out, n % base);
        assert(final(out)@ =~= old(out)@ + digits(n as nat, base as nat));
    }
}

/// Appends the text of `ip`.
fn push_ip(out: &mut String, ip: IpAddress)
    ensures
        final(out)@ == old(out)@ + ip_text(ip),
{
    let ghost start = out@;
    match ip {
        IpAddress::V4(a, b, c, d) => {
            proof { reveal_strlit("."); }
            push_digits(out, a as u64, 10);
            out.append(".");
            push_digits(out, b as u64, 10);
            out.append(".");
            push_digits(out, c as u64, 10);
            out.append(".");
            push_digits(out, d as u64, 10);
            assert(out@ =~= start + ip_text(ip));
        },
        IpAddress::V6(a, b, c, d, e, f, g, h) => {
            proof { reveal_strlit(":"); }
            push_digits(out, a as u64, 16);
            out.append(":");
            push_digits(out, b as u64, 16);
            out.append(":");
            push_digits(out, c as u64, 16);
            out.append(":");
            push_digits(out, d as u64, 16);
            out.append(":");
            push_digits(out, e as u64, 16);
            out.append(":");
            push_digits(out, f as u64, 16);
            out.append(":");
            push_digits(out, g as u64, 16);
            out.append(":");
            push_digits(out, h as u64, 16);
            assert(out@ =~= start + ip_text(ip));
        },
    }
}

/// Appends the text of `id`.
fn push_id(out: &mut String, id: ConnId)
    ensures
        final(out)@ == old(out)@ + id_text(id),
{
    let ghost start = out@;
    proof {
        reveal_strlit(":");
        reveal_strlit("[");
        reveal_strlit("]:");
    }
    match id.ip {
        IpAddress::V4(..) => {
            push_ip(out, id.ip);
            out.append(":");
        },
        IpAddress::V6(..) => {
            out.append("[");
            push_ip(out, id.ip);
            out.append("]:");
        },
    }
    push_digits(out, id.port as u64, 10);
    assert(out@ =~= start + id_text(id));
}

/// Appends `ids` as a bracketed, comma-separated list.
fn push_ids(out: &mut String, ids: &Vec<ConnId>)
    ensures
        final(out)@ == old(out)@ + ids_text(ids@),
{
    let ghost start = out@;
    proof {
        reveal_strlit("[");
        reveal_strlit("]");
    }
    out.append("[");
    let mut i: usize = 0;
    while i < ids.len()
        invariant
            i <= ids@.len(),
            out@ == start + seq!['['] + ids_inner(ids@.subrange(0, i as int)),
        decreases ids@.len() - i,
    {
        let ghost before = out@;
        if i > 0 {
            out.append(",");
            proof {
                reveal_strlit(",");
            }
        }
        let ghost sep = out@;
        push_id(out, ids[i]);
        let ghost next = ids@.subrange(0, i + 1);
        assert(next.drop_last() =~= ids@.subrange(0, i as int));
        assert(next.last() == ids@[i as int]);
        if i == 0 {
            assert(next.len() == 1);
            assert(ids_inner(next) == id_text(next[0]));
            assert(ids_inner(ids@.subrange(0, 0)) =~= Seq::<char>::empty());
            assert(sep == before);
        } else {
            assert(ids_inner(next) == ids_inner(next.drop_last()) + seq![','] + id_text(
                next.last(),
            ));
            assert(sep == before + seq![',']);
        }
        assert(out@ =~= start + seq!['['] + ids_inner(next));
        i = i + 1;
    }
    assert(ids@.subrange(0, ids@.len() as int) =~= ids@);
    out.append("]");
    assert(out@ =~= start + ids_text(ids@));
}

/// Appends ` label=[...]` where the set is present.
fn push_set(out: &mut String, label: &str, s: &Option<Vec<ConnId>>)
    ensures
        final(out)@ == old(out)@ + set_text(label@, *s),
{
    let ghost start = out@;
    proof {
        reveal_strlit(" ");
        reveal_strlit("=");
    }
    match s {
        Some(v) => {
            out.append(" ");
            out.append(label);
            out.append("=");
            push_ids(out, v);
            assert(out@ =~= start + set_text(label@, *s));
        },
        None => {
            assert(out@ =~= start + set_text(label@, *s));
        },
    }
}

/// The text an outbound actor writes for `m`.
pub fn render_message(m: &Message) -> (r: String)
    ensures
        r@ == render(*m),
{
    let mut out = String::new();
    out.append("message: sender=");
    push_id(&mut out, m.sender);
    out.append(" scope=");
    match m.scope {
        ScopeKind::All => out.append("ALL"),
        ScopeKind::Except => out.append("EXCEPT"),
        ScopeKind::Only => out.append("ONLY"),
    }
    push_set(&mut out, "except", &m.except_ids);
    push_set(&mut out, "only", &m.include_ids);
    out.append(" text=");
    out.append(m.text.as_str());
    assert(out@ =~= render(*m));
    out
}

} // verus!
