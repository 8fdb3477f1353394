//! The SWIFT MT940 codec.
//!
//! A document is a run of records `{1:...}{2:...}{3:...}{4:...}{5:...}`.
//! Block 1 carries the BIC, block 2 the message id, block 4 the statement
//! fields (`:25:`, `:28C:`, the balances, and one `:61:`/`:86:` pair per
//! entry).
//!
//! Fields are read by scanners over characters, each with the grammar that
//! its specification states; digits and capitals are ASCII, and word
//! characters are Latin and Cyrillic letters, digits and underscore. The
//! `n`th `:61:` line pairs with the `n`th `:86:` field; when the two are not
//! equally many, no entries are read. A balance under a tag other than the
//! six known ones is not read.
use vstd::prelude::*;
use crate::camt053::{
    expanded_date, BalanceAttribute, BkToCstmrStmt, DtAttribute, NtryAttribute, NtryDtlsAttribute,
    TxDtlsAttribute,
};
use crate::errors::ParserError;
use crate::text::{
    chars_of, eq_text, opt_view, find_char, has_class, index_from, lemma_replaced_char, lemma_run_chars, replace_all, replaced, is_digit, is_word, matches_at, occurs_at, run_at, run_len, string_range,
    CharClass,
};

verus! {

/// The positions at which `pat` occurs in `s`, scanning from `i` and
/// resuming after each occurrence.
pub open spec fn positions_from(s: Seq<char>, pat: Seq<char>, i: int) -> Seq<int>
    decreases s.len() - i,
{
    if pat.len() == 0 || i < 0 || i >= s.len() {
        seq![]
    } else if occurs_at(s, pat, i) {
        seq![i] + positions_from(s, pat, i + pat.len())
    } else {
        positions_from(s, pat, i + 1)
    }
}

/// The positions of the record start markers `{1`.
pub open spec fn record_starts(s: Seq<char>) -> Seq<int> {
    positions_from(s, "{1"@, 0)
}

/// The positions of the record end markers `{5:`.
pub open spec fn record_ends(s: Seq<char>) -> Seq<int> {
    positions_from(s, "{5:"@, 0)
}

/// The positions at which `pat` occurs in `s`.
fn positions(s: &Vec<char>, pat: &Vec<char>) -> (r: Vec<usize>)
    ensures
        r@.map_values(|x: usize| x as int) == positions_from(s@, pat@, 0),
{
    let mut r: Vec<usize> = Vec::new();
    if pat.len() == 0 {
        assert(r@.map_values(|x: usize| x as int) =~= seq![]);
        return r;
    }
    let mut i: usize = 0;
    assert(r@.map_values(|x: usize| x as int) + positions_from(s@, pat@, 0) =~= positions_from(
        s@,
        pat@,
        0,
    ));
    while i < s.len()
        invariant
            pat@.len() > 0,
            r@.map_values(|x: usize| x as int) + positions_from(s@, pat@, i as int)
                == positions_from(s@, pat@, 0),
        decreases s.len() - i,
    {
        let ghost before = r@.map_values(|x: usize| x as int);
        if matches_at(s, pat, i) {
            r.push(i);
            assert(r@.map_values(|x: usize| x as int) =~= before.push(i as int));
            assert(before + positions_from(s@, pat@, i as int) =~= before.push(i as int)
                + positions_from(s@, pat@, i + pat@.len()));
            i = i + pat.len();
        } else {
            i = i + 1;
        }
    }
    assert(positions_from(s@, pat@, i as int) =~= seq![]);
    assert(r@.map_values(|x: usize| x as int) + seq![] =~= r@.map_values(|x: usize| x as int));
    r
}

/// Block `n` of a record: the text after the first `{n:` that runs over
/// block characters up to a closing `}`.
pub open spec fn block_at(s: Seq<char>, tag: Seq<char>, p: int) -> bool {
    let e = p + tag.len() + run_len(s, p + tag.len(), CharClass::Block);
    occurs_at(s, tag, p) && e < s.len() && s[e] == '}'
}

pub open spec fn block_from(s: Seq<char>, tag: Seq<char>, p: int) -> Option<Seq<char>>
    decreases s.len() - p,
{
    if p < 0 || p >= s.len() {
        None
    } else if block_at(s, tag, p) {
        Some(
            s.subrange(
                p + tag.len(),
                p + tag.len() + run_len(s, p + tag.len(), CharClass::Block),
            ),
        )
    } else {
        block_from(s, tag, p + 1)
    }
}


/// The value of the field of `s` opened by `code`, as it stands.
fn find_tag_field(s: &Vec<char>, code: &str) -> (r: Option<String>)
    ensures
        opt_view(r) == tag_field_from(s@, code@, 0),
{
    let t = chars_of(code);
    let mut p: usize = 0;
    while p < s.len()
        invariant
            t@ == code@,
            tag_field_from(s@, code@, p as int) == tag_field_from(s@, code@, 0),
        decreases s.len() - p,
    {
        if matches_at(s, &t, p) {
            let b = p + t.len();
            let n = run_at(s, b, CharClass::Field);
            if n >= 1 {
                return Some(string_range(s, b, b + n));
            }
        }
        p = p + 1;
    }
    None
}

/// The value of the field of `s` opened by `code`, without line breaks
/// and spaces.
fn tag_field(s: &Vec<char>, code: &str) -> (r: Option<String>)
    ensures
        opt_view(r) == tag_value(s@, code@),
{
    match find_tag_field(s, code) {
        Some(c) => {
            let c1 = replace_all(c.as_str(), "\n", "");
            Some(replace_all(c1.as_str(), " ", ""))
        },
        None => None,
    }
}

/// The fields of `s` opened by `code`, in order.
fn entry_fields(s: &Vec<char>, code: &str, closed: bool) -> (r: Vec<String>)
    ensures
        strings_view(r) == entry_fields_from(s@, code@, closed, 0),
{
    let t = chars_of(code);
    let mut r: Vec<String> = Vec::new();
    let mut p: usize = 0;
    assert(strings_view(r) + entry_fields_from(s@, code@, closed, 0) =~= entry_fields_from(
        s@,
        code@,
        closed,
        0,
    ));
    while p < s.len()
        invariant
            t@ == code@,
            p <= s.len(),
            strings_view(r) + entry_fields_from(s@, code@, closed, p as int) == entry_fields_from(
                s@,
                code@,
                closed,
                0,
            ),
        decreases s.len() - p,
    {
        if matches_at(s, &t, p) {
            let b = p + t.len();
            let n = run_at(s, b, CharClass::Field);
            if n >= 1 && (!closed || (b + n < s.len() && s[b + n] == ':')) {
                let ghost before = strings_view(r);
                let value = string_range(s, b, b + n);
                r.push(value);
                assert(strings_view(r) =~= before.push(value@));
                let e = b + n;
                let next = if closed {
                    e + 1
                } else {
                    e
                };
                assert(before + entry_fields_from(s@, code@, closed, p as int) =~= strings_view(r)
                    + entry_fields_from(s@, code@, closed, next as int));
                p = next;
            } else {
                p = p + 1;
            }
        } else {
            p = p + 1;
        }
    }
    assert(entry_fields_from(s@, code@, closed, p as int) =~= seq![]);
    assert(strings_view(r) + seq![] =~= strings_view(r));
    r
}

/// Appends the balance of the field opened by `code`, typed `tp`, if the
/// field holds one.
fn read_balance(s: &Vec<char>, code: &str, tp: &str, document: &mut BkToCstmrStmt)
    ensures
        final(document).grp_hdr == old(document).grp_hdr,
        final(document).stmt.id == old(document).stmt.id,
        final(document).stmt.elctrnc_seq_nb == old(document).stmt.elctrnc_seq_nb,
        final(document).stmt.lgl_seq_nb == old(document).stmt.lgl_seq_nb,
        final(document).stmt.cre_dt_tm == old(document).stmt.cre_dt_tm,
        final(document).stmt.fr_to_dt == old(document).stmt.fr_to_dt,
        final(document).stmt.acct == old(document).stmt.acct,
        final(document).stmt.txs_summry == old(document).stmt.txs_summry,
        final(document).stmt.ntry == old(document).stmt.ntry,
        final(document).stmt.bal@.take(old(document).stmt.bal@.len() as int) == old(
            document,
        ).stmt.bal@,
        balances_typed(
            final(document).stmt.bal@,
            old(document).stmt.bal@.len() as int,
            balance_source(s@, code@, tp@),
        ),
{
    if let Some(c) = tag_field(s, code) {
        if let Some(mut balance) = DocumentMt940::parse_field_balance(c.as_str()) {
            balance.tp.cd_or_prtry.cd = String::from_str(tp);
            document.stmt.bal.push(balance);
            assert(final(document).stmt.bal@.take(old(document).stmt.bal@.len() as int)
                =~= old(document).stmt.bal@);
            return;
        }
    }
    assert(final(document).stmt.bal@.take(old(document).stmt.bal@.len() as int)
        =~= old(document).stmt.bal@);
}

/// Appends the date digits of `dt` from index `from` up to the eighth.
fn push_short_date(out: &mut String, dt: &String, from: usize)
    requires
        from <= 8,
    ensures
        final(out)@ == old(out)@ + short_date(dt@, from as int),
{
    let d = chars_of(replace_all(dt.as_str(), "-", "").as_str());
    if d.len() >= 8 {
        out.append(string_range(&d, from, 8).as_str());
    } else {
        assert(old(out)@ + seq![] =~= old(out)@);
    }
}

/// Appends `tag value` and a line break, unless the value is empty.
fn push_opt_field(out: &mut String, tag: &str, v: &String)
    ensures
        final(out)@ == old(out)@ + opt_field(tag@, v@),
{
    if v.as_str().is_empty() {
        assert(old(out)@ + seq![] =~= old(out)@);
    } else {
        out.append(tag);
        out.append(v.as_str());
        out.append("\n");
        assert(final(out)@ =~= old(out)@ + opt_field(tag@, v@));
    }
}

/// Appends the remittance lines, each followed by a slash, after
/// `/REMI/`; nothing when there are none.
fn push_remittance(out: &mut String, us: &Vec<String>)
    ensures
        final(out)@ == old(out)@ + (if us@.len() == 0 {
            seq![]
        } else {
            "/REMI/"@ + slash_joined(strings_view(*us)) + "\n"@
        }),
{
    if us.len() == 0 {
        assert(old(out)@ + seq![] =~= old(out)@);
        return;
    }
    out.append("/REMI/");
    let ghost start = out@;
    let mut k: usize = 0;
    assert(strings_view(*us).take(0) =~= seq![]);
    assert(start + seq![] =~= start);
    while k < us.len()
        invariant
            k <= us@.len(),
            out@ == start + slash_joined(strings_view(*us).take(k as int)),
        decreases us.len() - k,
    {
        out.append(us[k].as_str());
        out.append("/");
        proof {
            let v = strings_view(*us);
            assert(v.take(k + 1).drop_last() =~= v.take(k as int));
            assert(v[k as int] == us@[k as int]@);
        }
        k = k + 1;
        assert(out@ =~= start + slash_joined(strings_view(*us).take(k as int)));
    }
    assert(strings_view(*us).take(k as int) =~= strings_view(*us));
    out.append("\n");
    assert(final(out)@ =~= old(out)@ + ("/REMI/"@ + slash_joined(strings_view(*us)) + "\n"@));
}

/// Appends the `:86:` field of a transaction detail.
#[verifier::rlimit(40)]
fn push_info(out: &mut String, t: &TxDtlsAttribute)
    ensures
        final(out)@ == old(out)@ + info_text(*t),
{
    let ghost o = out@;
    out.append(":86:/NREF/");
    out.append(t.refs.end_to_end_id.as_str());
    out.append("\n");
    let ghost part1 = ":86:/NREF/"@ + t.refs.end_to_end_id@ + "\n"@;
    assert(out@ =~= o + part1);
    push_opt_field(out, "/CRNM/", &t.rltd_pties.cdtr.nm);
    let ghost part2 = part1 + opt_field("/CRNM/"@, t.rltd_pties.cdtr.nm@);
    assert(out@ =~= o + part2);
    push_opt_field(out, "/CACT/", &t.rltd_pties.cdtr_acct.other.id);
    let ghost part3 = part2 + opt_field("/CACT/"@, t.rltd_pties.cdtr_acct.other.id@);
    assert(out@ =~= o + part3);
    push_opt_field(out, "/CBIC/", &t.rltd_agts.cdtr_agt.fin_instn_id.bic);
    let ghost part4 = part3 + opt_field("/CBIC/"@, t.rltd_agts.cdtr_agt.fin_instn_id.bic@);
    assert(out@ =~= o + part4);
    push_remittance(out, &t.rmt_inf.ustrd);
    let ghost part5 = part4 + (if t.rmt_inf.ustrd@.len() == 0 {
        seq![]
    } else {
        "/REMI/"@ + slash_joined(strings_view(t.rmt_inf.ustrd)) + "\n"@
    });
    assert(out@ =~= o + part5);
    push_opt_field(out, "/OPRP/", &t.addtl_tx_inf);
    let ghost part6 = part5 + opt_field("/OPRP/"@, t.addtl_tx_inf@);
    assert(out@ =~= o + part6);
    push_opt_field(out, "/DACT/", &t.rltd_pties.dbtr_acct.other.id);
    let ghost part7 = part6 + opt_field("/DACT/"@, t.rltd_pties.dbtr_acct.other.id@);
    assert(out@ =~= o + part7);
    push_opt_field(out, "/OAMT/", &t.amt_dtls.amt);
    let ghost part8 = part7 + opt_field("/OAMT/"@, t.amt_dtls.amt@);
    assert(out@ =~= o + part8);
    push_opt_field(out, "/DCID/", &t.rltd_pties.dbtr.id.othr.id);
    let ghost part9 = part8 + opt_field("/DCID/"@, t.rltd_pties.dbtr.id.othr.id@);
    assert(out@ =~= o + part9);
    assert(part9 == info_text(*t));
}

/// Appends the balance line of `b`, if its type has an MT940 tag.
fn push_balance(out: &mut String, b: &BalanceAttribute)
    ensures
        final(out)@ == old(out)@ + balance_line(*b),
{
    let cd = &b.tp.cd_or_prtry.cd;
    if eq_text(cd, "OPBD") {
        out.append(":60F:");
    } else if eq_text(cd, "OPAV") {
        out.append(":60M:");
    } else if eq_text(cd, "CLBD") {
        out.append(":62F:");
    } else if eq_text(cd, "CLAV") {
        out.append(":62M:");
    } else if eq_text(cd, "ITAV") {
        out.append(":64:");
    } else if eq_text(cd, "FPAV") {
        out.append(":65:");
    } else {
        assert(old(out)@ + seq![] =~= old(out)@);
        return;
    }
    out.append(b.cd.as_str());
    push_short_date(out, &b.dt.dt, 2);
    out.append(b.amt.ccy.as_str());
    out.append(replace_all(b.amt.amt.as_str(), ".", ",").as_str());
    out.append("\n");
    assert(final(out)@ =~= old(out)@ + balance_line(*b));
}

/// Appends an entry: its `:61:` line and its `:86:` fields.
fn push_entry(out: &mut String, n: &NtryAttribute)
    ensures
        final(out)@ == old(out)@ + entry_text(*n),
{
    out.append(":61:");
    push_short_date(out, &n.val_dt.dt, 2);
    push_short_date(out, &n.bookg_dt.dt, 4);
    if eq_text(&n.cdt_dbt_ind, "CRDT") {
        out.append("C");
    } else {
        out.append("D");
    }
    out.append(replace_all(n.amt.amt.as_str(), ".", ",").as_str());
    out.append(n.bk_tx_cd.prtry.cd.as_str());
    if n.ntry_dtls.tx_dtls.len() > 0 {
        out.append(n.ntry_dtls.tx_dtls[0].refs.end_to_end_id.as_str());
        out.append(" ");
    }
    out.append("\n");
    assert(out@ =~= old(out)@ + line61_text(*n));
    let ghost start = out@;
    let ts = &n.ntry_dtls.tx_dtls;
    let mut k: usize = 0;
    while k < ts.len()
        invariant
            k <= ts@.len(),
            out@ == start + infos_text(ts@.take(k as int)),
        decreases ts.len() - k,
    {
        push_info(out, &ts[k]);
        assert(ts@.take(k + 1).drop_last() =~= ts@.take(k as int));
        k = k + 1;
        assert(out@ =~= start + infos_text(ts@.take(k as int)));
    }
    assert(ts@.take(k as int) =~= ts@);
    assert(final(out)@ =~= old(out)@ + entry_text(*n));
}

/// Appends a statement as one MT940 record.
fn push_record(out: &mut String, record: &BkToCstmrStmt)
    ensures
        final(out)@ == old(out)@ + record_text(*record),
{
    let ghost o = out@;
    out.append("{1:F01");
    out.append(record.stmt.acct.svcr.fin_instn_id.bic.as_str());
    out.append("}\n");
    out.append("{2:");
    out.append(record.grp_hdr.msg_id.as_str());
    out.append("}\n{3:}\n{4:\n");
    let ghost part1 = "{1:F01"@ + record.stmt.acct.svcr.fin_instn_id.bic@ + "}\n"@ + "{2:"@
        + record.grp_hdr.msg_id@ + "}\n{3:}\n{4:\n"@;
    assert(out@ =~= o + part1);
    out.append(":20:");
    out.append(record.grp_hdr.msg_id.as_str());
    out.append("\n");
    out.append(":25:");
    out.append(record.stmt.acct.ownr.id.org_id.othr.id.as_str());
    out.append("\n");
    let ghost part2 = part1 + ":20:"@ + record.grp_hdr.msg_id@ + "\n"@ + ":25:"@
        + record.stmt.acct.ownr.id.org_id.othr.id@ + "\n"@;
    assert(out@ =~= o + part2);
    out.append(":28C:");
    out.append(record.stmt.elctrnc_seq_nb.as_str());
    out.append("/");
    out.append(record.stmt.lgl_seq_nb.as_str());
    out.append("\n");
    let ghost part3 = part2 + ":28C:"@ + record.stmt.elctrnc_seq_nb@ + "/"@ + record.stmt.lgl_seq_nb@
        + "\n"@;
    assert(out@ =~= o + part3);
    DocumentMt940::extract_field_6x_mt940(record, out);
    let ghost part4 = part3 + balance_lines(record.stmt.bal@);
    assert(out@ =~= o + part4);
    DocumentMt940::extract_field_61_86_mt940(&record.stmt.ntry, out);
    let ghost part5 = part4 + entries_text(record.stmt.ntry@);
    assert(out@ =~= o + part5);
    out.append("}\n{5:-}\n");
    assert(out@ =~= o + (part5 + "}\n{5:-}\n"@));
}

fn find_block(s: &Vec<char>, tag: &str) -> (r: Option<String>)
    ensures
        opt_view(r) == block_from(s@, tag@, 0),
{
    let t = chars_of(tag);
    let mut p: usize = 0;
    while p < s.len()
        invariant
            t@ == tag@,
            block_from(s@, tag@, p as int) == block_from(s@, tag@, 0),
        decreases s.len() - p,
    {
        if matches_at(s, &t, p) {
            let b = p + t.len();
            let n = run_at(s, b, CharClass::Block);
            if b + n < s.len() && s[b + n] == '}' {
                return Some(string_range(s, b, b + n));
            }
        }
        p = p + 1;
    }
    None
}

/// Where the BIC of block 1 (`F`, two digits, letters, digits, letters,
/// then a digit) ends, when it matches at `p`.
pub open spec fn bic_end(s: Seq<char>, p: int) -> int {
    let q = p + 3 + run_len(s, p + 3, CharClass::Upper);
    let r = q + run_len(s, q, CharClass::Digit);
    let t = r + run_len(s, r, CharClass::Upper);
    if t < s.len() && is_digit(s[t]) {
        t
    } else {
        r - 1
    }
}

pub open spec fn bic_at(s: Seq<char>, p: int) -> bool {
    let q = p + 3 + run_len(s, p + 3, CharClass::Upper);
    let r = q + run_len(s, q, CharClass::Digit);
    let t = r + run_len(s, r, CharClass::Upper);
    &&& 0 <= p
    &&& p + 3 <= s.len()
    &&& s[p] == 'F'
    &&& is_digit(s[p + 1])
    &&& is_digit(s[p + 2])
    &&& ((t < s.len() && is_digit(s[t])) || r > q)
}

pub open spec fn bic_from(s: Seq<char>, p: int) -> Option<Seq<char>>
    decreases s.len() - p,
{
    if p < 0 || p >= s.len() {
        None
    } else if bic_at(s, p) {
        Some(s.subrange(p + 3, bic_end(s, p)))
    } else {
        bic_from(s, p + 1)
    }
}

/// The BIC that block 1 names, or `UNKNOWN_BIC`.
pub open spec fn block_one_bic(s: Seq<char>) -> Seq<char> {
    match bic_from(s, 0) {
        Some(b) => b,
        None => "UNKNOWN_BIC"@,
    }
}

/// Where the message id of block 2 (`I` or `O`, three digits, then word
/// characters) matches at `p`.
pub open spec fn msg_id_at(s: Seq<char>, p: int) -> bool {
    &&& 0 <= p
    &&& p + 5 <= s.len()
    &&& (s[p] == 'I' || s[p] == 'O')
    &&& run_len(s, p + 1, CharClass::Digit) >= 3
    &&& is_word(s[p + 4])
}

pub open spec fn msg_id_from(s: Seq<char>, p: int) -> Option<Seq<char>>
    decreases s.len() - p,
{
    if p < 0 || p >= s.len() {
        None
    } else if msg_id_at(s, p) {
        Some(s.subrange(p + 4, p + 4 + run_len(s, p + 4, CharClass::Word)))
    } else {
        msg_id_from(s, p + 1)
    }
}

/// What reading block 2 changes: the message id, and the statement id
/// that is the message id followed by `-940`.
pub open spec fn block_two_read(a: BkToCstmrStmt, b: BkToCstmrStmt, s: Seq<char>) -> bool {
    &&& b.grp_hdr.cre_dt_tm == a.grp_hdr.cre_dt_tm
    &&& b.stmt.elctrnc_seq_nb == a.stmt.elctrnc_seq_nb
    &&& b.stmt.lgl_seq_nb == a.stmt.lgl_seq_nb
    &&& b.stmt.cre_dt_tm == a.stmt.cre_dt_tm
    &&& b.stmt.fr_to_dt == a.stmt.fr_to_dt
    &&& b.stmt.acct == a.stmt.acct
    &&& b.stmt.bal == a.stmt.bal
    &&& b.stmt.txs_summry == a.stmt.txs_summry
    &&& b.stmt.ntry == a.stmt.ntry
    &&& match msg_id_from(s, 0) {
        Some(m) => b.grp_hdr.msg_id@ == m && b.stmt.id@ == m + "-940"@,
        None => b.grp_hdr.msg_id == a.grp_hdr.msg_id && b.stmt.id == a.stmt.id,
    }
}

/// A field of block 4 opened by `code` (such as `:25:`): the first
/// occurrence of `code` followed by at least one field character.
pub open spec fn tag_field_at(s: Seq<char>, code: Seq<char>, p: int) -> bool {
    occurs_at(s, code, p) && run_len(s, p + code.len(), CharClass::Field) >= 1
}

pub open spec fn tag_field_from(s: Seq<char>, code: Seq<char>, p: int) -> Option<Seq<char>>
    decreases s.len() - p,
{
    if p < 0 || p >= s.len() {
        None
    } else if tag_field_at(s, code, p) {
        Some(s.subrange(p + code.len(), p + code.len() + run_len(s, p + code.len(), CharClass::Field)))
    } else {
        tag_field_from(s, code, p + 1)
    }
}

/// A field value with its line breaks and spaces taken out.
pub open spec fn squeezed(c: Seq<char>) -> Seq<char> {
    replaced(replaced(c, "\n"@, ""@), " "@, ""@)
}

/// The value of the field opened by `code`, line breaks and spaces taken out.
pub open spec fn tag_value(s: Seq<char>, code: Seq<char>) -> Option<Seq<char>> {
    match tag_field_from(s, code, 0) {
        Some(c) => Some(squeezed(c)),
        None => None,
    }
}

/// A balance field `[CD]`, six date digits, a currency in capitals, and an
/// amount `digits,digits`, matching at `p`.
pub open spec fn balance_at(s: Seq<char>, p: int) -> bool {
    let u = run_len(s, p + 7, CharClass::Upper);
    let d1 = run_len(s, p + 7 + u, CharClass::Digit);
    let e = p + 7 + u + d1;
    &&& 0 <= p
    &&& p + 7 <= s.len()
    &&& (s[p] == 'C' || s[p] == 'D')
    &&& run_len(s, p + 1, CharClass::Digit) >= 6
    &&& u >= 1
    &&& d1 >= 1
    &&& e < s.len()
    &&& s[e] == ','
    &&& run_len(s, e + 1, CharClass::Digit) >= 1
}

pub open spec fn balance_from(s: Seq<char>, p: int) -> Option<int>
    decreases s.len() - p,
{
    if p < 0 || p >= s.len() {
        None
    } else if balance_at(s, p) {
        Some(p)
    } else {
        balance_from(s, p + 1)
    }
}

/// The balance read from the match at `p`: sign letter, date, currency
/// and dot-decimal amount; its type and indicator left empty.
pub open spec fn balance_read(b: BalanceAttribute, s: Seq<char>, p: int) -> bool {
    balance_fields(b, s, p) && b.tp.is_blank()
}

/// The fields that the balance match at `p` gives.
pub open spec fn balance_fields(b: BalanceAttribute, s: Seq<char>, p: int) -> bool {
    let u = run_len(s, p + 7, CharClass::Upper);
    let e = p + 7 + u + run_len(s, p + 7 + u, CharClass::Digit);
    let end = e + 1 + run_len(s, e + 1, CharClass::Digit);
    &&& b.cd@ == s.subrange(p, p + 1)
    &&& b.dt.dt@ == expanded_date(s.subrange(p + 1, p + 7))
    &&& b.amt.ccy@ == s.subrange(p + 7, p + 7 + u)
    &&& b.amt.amt@ == replaced(s.subrange(p + 7 + u, end), ","@, "."@)
    &&& b.cdt_dbt_ind@.len() == 0
}

/// A sub-field `/TAG/value` of an `:86:` field at `p`: a slash, four
/// capitals, a slash, then word characters.
pub open spec fn sub_tag_at(s: Seq<char>, p: int) -> bool {
    &&& 0 <= p
    &&& p + 6 <= s.len()
    &&& s[p] == '/'
    &&& run_len(s, p + 1, CharClass::Upper) >= 4
    &&& s[p + 5] == '/'
}

/// The `(tag, value)` pairs of an `:86:` field from `p` on, in order.
pub open spec fn sub_tags_from(s: Seq<char>, p: int) -> Seq<(Seq<char>, Seq<char>)>
    decreases s.len() - p,
    via sub_tags_from_decreases
{
    if p < 0 || p >= s.len() {
        seq![]
    } else if sub_tag_at(s, p) {
        let w = run_len(s, p + 6, CharClass::Word);
        seq![(s.subrange(p + 1, p + 5), s.subrange(p + 6, p + 6 + w))] + sub_tags_from(
            s,
            p + 6 + w,
        )
    } else {
        sub_tags_from(s, p + 1)
    }
}

#[via_fn]
proof fn sub_tags_from_decreases(s: Seq<char>, p: int) {
    if 0 <= p {
        lemma_run_chars(s, p + 6, CharClass::Word);
    }
}

/// The four letters of a sub-field tag.
pub open spec fn key_of(t: Seq<char>) -> (char, char, char, char) {
    (t[0], t[1], t[2], t[3])
}

/// The value of the last pair whose tag is in `keys`; empty when none is.
pub open spec fn last_value(ts: Seq<(Seq<char>, Seq<char>)>, keys: Set<(char, char, char, char)>) -> Seq<char>
    decreases ts.len(),
{
    if ts.len() == 0 {
        seq![]
    } else if keys.contains(key_of(ts.last().0)) {
        ts.last().1
    } else {
        last_value(ts.drop_last(), keys)
    }
}

/// Whether some pair has tag `key`.
pub open spec fn has_tag(ts: Seq<(Seq<char>, Seq<char>)>, key: (char, char, char, char)) -> bool {
    exists|i: int| 0 <= i < ts.len() && key_of((#[trigger] ts[i]).0) == key
}

/// The values of the pairs with tag `key`, in order.
pub open spec fn values_of(ts: Seq<(Seq<char>, Seq<char>)>, key: (char, char, char, char)) -> Seq<Seq<char>>
    decreases ts.len(),
{
    if ts.len() == 0 {
        seq![]
    } else if key_of(ts.last().0) == key {
        values_of(ts.drop_last(), key).push(ts.last().1)
    } else {
        values_of(ts.drop_last(), key)
    }
}

pub open spec fn strings_view(v: Vec<String>) -> Seq<Seq<char>> {
    v@.map_values(|x: String| x@)
}

/// The transaction detail that the sub-fields `ts` describe, with `e2e` as
/// its end-to-end reference; every field that no sub-field names is empty.
pub open spec fn tx_from_tags(t: TxDtlsAttribute, ts: Seq<(Seq<char>, Seq<char>)>, e2e: Seq<char>) -> bool {
    &&& t.refs.end_to_end_id@ == e2e
    &&& t.refs.pmt_inf_id@.len() == 0
    &&& t.refs.instr_id@.len() == 0
    &&& t.refs.tx_id@.len() == 0
    &&& t.refs.prtry.refdt@ == last_value(ts, set![('N', 'R', 'E', 'F')])
    &&& t.refs.prtry.tp@ == (if has_tag(ts, ('N', 'R', 'E', 'F')) { "NREF"@ } else { seq![] })
    &&& t.amt_dtls.amt@ == last_value(ts, set![('O', 'A', 'M', 'T')])
    &&& t.amt_dtls.end_to_end_id@.len() == 0
    &&& t.amt_dtls.instd_amt.is_blank()
    &&& t.amt_dtls.tx_amt.is_blank()
    &&& t.amt_dtls.prtry_amt.is_blank()
    &&& t.bk_tx_cd.is_blank()
    &&& t.rltd_pties.dbtr.id.othr.id@ == last_value(ts, set![('D', 'C', 'I', 'D')])
    &&& t.rltd_pties.dbtr.nm@.len() == 0
    &&& t.rltd_pties.dbtr.pstl_adr.is_blank()
    &&& t.rltd_pties.dbtr_acct.id.is_blank()
    &&& t.rltd_pties.dbtr_acct.other.id@ == last_value(
        ts,
        set![('D', 'A', 'C', 'T'), ('D', 'B', 'I', 'C')],
    )
    &&& t.rltd_pties.cdtr.id.is_blank()
    &&& t.rltd_pties.cdtr.nm@ == last_value(ts, set![('C', 'R', 'N', 'M')])
    &&& t.rltd_pties.cdtr.pstl_adr.is_blank()
    &&& t.rltd_pties.cdtr_acct.id.is_blank()
    &&& t.rltd_pties.cdtr_acct.other.id@ == last_value(ts, set![('C', 'A', 'C', 'T')])
    &&& t.rltd_agts.cdtr_agt.fin_instn_id.bic@ == last_value(ts, set![('C', 'B', 'I', 'C')])
    &&& t.rltd_agts.cdtr_agt.fin_instn_id.nm@.len() == 0
    &&& t.rltd_agts.cdtr_agt.fin_instn_id.pstl_adr.is_blank()
    &&& t.rltd_agts.dbtr_agt.is_blank()
    &&& strings_view(t.rmt_inf.ustrd) == values_of(ts, ('R', 'E', 'M', 'I'))
    &&& t.rmt_inf.strd.is_blank()
    &&& t.rltd_dts.is_blank()
    &&& t.addtl_tx_inf@ == last_value(ts, set![('O', 'P', 'R', 'P')])
}

/// Adding one pair updates the folds in the obvious way.
proof fn lemma_tags_push(ts: Seq<(Seq<char>, Seq<char>)>, t: (Seq<char>, Seq<char>))
    ensures
        forall|keys: Set<(char, char, char, char)>|
            #![trigger last_value(ts.push(t), keys)]
            last_value(ts.push(t), keys) == if keys.contains(key_of(t.0)) {
                t.1
            } else {
                last_value(ts, keys)
            },
        forall|key: (char, char, char, char)|
            #![trigger values_of(ts.push(t), key)]
            values_of(ts.push(t), key) == if key_of(t.0) == key {
                values_of(ts, key).push(t.1)
            } else {
                values_of(ts, key)
            },
        forall|key: (char, char, char, char)|
            #![trigger has_tag(ts.push(t), key)]
            has_tag(ts.push(t), key) == (has_tag(ts, key) || key_of(t.0) == key),
{
    assert(ts.push(t).drop_last() =~= ts);
    assert forall|key: (char, char, char, char)| #![trigger has_tag(ts.push(t), key)]
        has_tag(ts.push(t), key) == (has_tag(ts, key) || key_of(t.0) == key) by {
        if has_tag(ts, key) {
            let i = choose|i: int| 0 <= i < ts.len() && key_of((#[trigger] ts[i]).0) == key;
            assert(ts.push(t)[i] == ts[i]);
        }
        if has_tag(ts.push(t), key) && key_of(t.0) != key {
            let i = choose|i: int|
                0 <= i < ts.push(t).len() && key_of((#[trigger] ts.push(t)[i]).0) == key;
            assert(ts.push(t)[i] == ts[i]);
        }
        if key_of(t.0) == key {
            assert(ts.push(t)[ts.len() as int] == t);
        }
    }
}

/// A blank detail is what no sub-field describes.
proof fn lemma_blank_tx(t: TxDtlsAttribute)
    requires
        t.is_blank(),
    ensures
        tx_from_tags(t, seq![], Seq::<char>::empty()),
{
    let ts: Seq<(Seq<char>, Seq<char>)> = seq![];
    assert(t.refs.end_to_end_id@ == Seq::<char>::empty());
    assert(t.refs.pmt_inf_id@.len() == 0);
    assert(t.refs.instr_id@.len() == 0);
    assert(t.refs.tx_id@.len() == 0);
    assert(t.refs.prtry.refdt@ == last_value(ts, set![('N', 'R', 'E', 'F')]));
    assert(t.refs.prtry.tp@ == (if has_tag(ts, ('N', 'R', 'E', 'F')) { "NREF"@ } else { seq![] }));
    assert(t.amt_dtls.amt@ == last_value(ts, set![('O', 'A', 'M', 'T')]));
    assert(t.amt_dtls.end_to_end_id@.len() == 0);
    assert(t.amt_dtls.instd_amt.is_blank());
    assert(t.amt_dtls.tx_amt.is_blank());
    assert(t.amt_dtls.prtry_amt.is_blank());
    assert(t.bk_tx_cd.is_blank());
    assert(t.rltd_pties.dbtr.id.othr.id@ == last_value(ts, set![('D', 'C', 'I', 'D')]));
    assert(t.rltd_pties.dbtr.nm@.len() == 0);
    assert(t.rltd_pties.dbtr.pstl_adr.is_blank());
    assert(t.rltd_pties.dbtr_acct.id.is_blank());
    assert(t.rltd_pties.dbtr_acct.other.id@ == last_value(
        ts,
        set![('D', 'A', 'C', 'T'), ('D', 'B', 'I', 'C')],
    ));
    assert(t.rltd_pties.cdtr.id.is_blank());
    assert(t.rltd_pties.cdtr.nm@ == last_value(ts, set![('C', 'R', 'N', 'M')]));
    assert(t.rltd_pties.cdtr.pstl_adr.is_blank());
    assert(t.rltd_pties.cdtr_acct.id.is_blank());
    assert(t.rltd_pties.cdtr_acct.other.id@ == last_value(ts, set![('C', 'A', 'C', 'T')]));
    assert(t.rltd_agts.cdtr_agt.fin_instn_id.bic@ == last_value(ts, set![('C', 'B', 'I', 'C')]));
    assert(t.rltd_agts.cdtr_agt.fin_instn_id.nm@.len() == 0);
    assert(t.rltd_agts.cdtr_agt.fin_instn_id.pstl_adr.is_blank());
    assert(t.rltd_agts.dbtr_agt.is_blank());
    assert(strings_view(t.rmt_inf.ustrd) == values_of(ts, ('R', 'E', 'M', 'I')));
    assert(t.rmt_inf.strd.is_blank());
    assert(t.rltd_dts.is_blank());
    assert(t.addtl_tx_inf@ == last_value(ts, set![('O', 'P', 'R', 'P')]));
}

/// Tests whether the four characters of `s` from `i` spell the tag `k`.
fn is_key(s: &Vec<char>, i: usize, k: (char, char, char, char)) -> (r: bool)
    requires
        i + 4 <= s.len(),
    ensures
        r == (key_of(s@.subrange(i as int, i + 4)) == k),
{
    s[i] == k.0 && s[i + 1] == k.1 && s[i + 2] == k.2 && s[i + 3] == k.3
}

/// The fields opened by `code` from `p` on, in order: each is the run of
/// field characters after `code`; when `closed`, it must end at a `:`,
/// which the match takes in.
pub open spec fn entry_fields_from(s: Seq<char>, code: Seq<char>, closed: bool, p: int) -> Seq<Seq<char>>
    decreases s.len() - p,
    via entry_fields_from_decreases
{
    if p < 0 || p >= s.len() {
        seq![]
    } else if entry_field_at(s, code, closed, p) {
        let e = p + code.len() + run_len(s, p + code.len(), CharClass::Field);
        seq![s.subrange(p + code.len(), e)] + entry_fields_from(
            s,
            code,
            closed,
            if closed { e + 1 } else { e },
        )
    } else {
        entry_fields_from(s, code, closed, p + 1)
    }
}

#[via_fn]
proof fn entry_fields_from_decreases(s: Seq<char>, code: Seq<char>, closed: bool, p: int) {
    if 0 <= p {
        lemma_run_chars(s, p + code.len(), CharClass::Field);
    }
}

pub open spec fn entry_field_at(s: Seq<char>, code: Seq<char>, closed: bool, p: int) -> bool {
    let e = p + code.len() + run_len(s, p + code.len(), CharClass::Field);
    &&& occurs_at(s, code, p)
    &&& run_len(s, p + code.len(), CharClass::Field) >= 1
    &&& (closed ==> e < s.len() && s[e] == ':')
}

/// The `:61:` statement lines of block 4, each up to the colon that follows.
pub open spec fn lines_61(s: Seq<char>) -> Seq<Seq<char>> {
    entry_fields_from(s, ":61:"@, true, 0)
}

/// The `:86:` information fields of block 4.
pub open spec fn lines_86(s: Seq<char>) -> Seq<Seq<char>> {
    entry_fields_from(s, ":86:"@, false, 0)
}

/// A statement line at `p`: value date `YYMMDD`, booking date `MMDD`, `C`
/// or `D`, amount `digits,digits`, a four-capital transaction code, then
/// a reference of word characters.
pub open spec fn line61_at(s: Seq<char>, p: int) -> bool {
    let a1 = run_len(s, p + 11, CharClass::Digit);
    let f = p + 12 + a1 + run_len(s, p + 12 + a1, CharClass::Digit);
    &&& 0 <= p
    &&& p + 11 <= s.len()
    &&& run_len(s, p, CharClass::Digit) >= 10
    &&& (s[p + 10] == 'C' || s[p + 10] == 'D')
    &&& a1 >= 1
    &&& p + 11 + a1 < s.len()
    &&& s[p + 11 + a1] == ','
    &&& run_len(s, p + 12 + a1, CharClass::Digit) >= 1
    &&& run_len(s, f, CharClass::Upper) >= 4
    &&& run_len(s, f + 4, CharClass::Word) >= 1
}

pub open spec fn line61_from(s: Seq<char>, p: int) -> Option<int>
    decreases s.len() - p,
{
    if p < 0 || p >= s.len() {
        None
    } else if line61_at(s, p) {
        Some(p)
    } else {
        line61_from(s, p + 1)
    }
}

/// Where the transaction code of the statement line at `p` starts.
pub open spec fn line61_code(s: Seq<char>, p: int) -> int {
    let a1 = run_len(s, p + 11, CharClass::Digit);
    p + 12 + a1 + run_len(s, p + 12 + a1, CharClass::Digit)
}

/// The fields that a statement line at `p` of `s61`, with its information
/// field `s86`, gives an entry in currency `vault`.
pub open spec fn line61_fields(b: NtryAttribute, s61: Seq<char>, s86: Seq<char>, vault: Seq<char>, p: int) -> bool {
    let f = line61_code(s61, p);
    let w = run_len(s61, f + 4, CharClass::Word);
    &&& b.val_dt.dt@ == expanded_date(s61.subrange(p, p + 6))
    &&& b.bookg_dt.dt@ == expanded_date(s61.subrange(p, p + 2) + s61.subrange(p + 6, p + 10))
    &&& b.bk_tx_cd.prtry.cd@ == s61.subrange(f, f + 4)
    &&& b.amt.amt@ == replaced(s61.subrange(p + 11, f), ","@, "."@)
    &&& b.amt.ccy@ == vault
    &&& b.cdt_dbt_ind@ == (if s61[p + 10] == 'C' { "CRDT"@ } else { "DBIT"@ })
    &&& b.ntry_dtls.btch.is_blank()
    &&& b.ntry_dtls.tx_dtls@.len() == 1
    &&& tx_from_tags(b.ntry_dtls.tx_dtls@[0], sub_tags_from(s86, 0), s61.subrange(f + 4, f + 4 + w))
}

/// What reading a statement line changes in entry `a`, giving `b`.
pub open spec fn line61_read(a: NtryAttribute, b: NtryAttribute, s61: Seq<char>, s86: Seq<char>, vault: Seq<char>) -> bool {
    match line61_from(s61, 0) {
        None => b == a,
        Some(p) => {
            &&& line61_fields(b, s61, s86, vault, p)
            &&& b.ntry_ref == a.ntry_ref
            &&& b.sts == a.sts
            &&& b.acct_svcr_ref == a.acct_svcr_ref
            &&& b.bk_tx_cd.domn == a.bk_tx_cd.domn
            &&& b.bk_tx_cd.prtry.issr == a.bk_tx_cd.prtry.issr
            &&& b.addtl_inf_ind == a.addtl_inf_ind
        },
    }
}

/// The entry that a statement line and its information field describe.
pub open spec fn entry_read(b: NtryAttribute, s61: Seq<char>, s86: Seq<char>, vault: Seq<char>) -> bool {
    match line61_from(s61, 0) {
        None => b.is_blank(),
        Some(p) => {
            &&& line61_fields(b, s61, s86, vault, p)
            &&& b.ntry_ref == 0
            &&& b.sts@.len() == 0
            &&& b.acct_svcr_ref@.len() == 0
            &&& b.bk_tx_cd.domn.is_blank()
            &&& b.bk_tx_cd.prtry.issr@.len() == 0
            &&& b.addtl_inf_ind.is_blank()
        },
    }
}

/// The entries of block 4: the `n`th statement line paired with the `n`th
/// information field; `None` when their numbers differ.
pub open spec fn entries_read(v: Seq<NtryAttribute>, s: Seq<char>, vault: Seq<char>) -> bool {
    &&& v.len() == lines_61(s).len()
    &&& forall|i: int|
        0 <= i < v.len() ==> entry_read(#[trigger] v[i], lines_61(s)[i], lines_86(s)[i], vault)
}

/// The balance that the field opened by `code` holds, typed `tp`: one
/// `(type, field value)` pair, or none when the field is missing or
/// holds no balance.
pub open spec fn balance_source(s: Seq<char>, code: Seq<char>, tp: Seq<char>) -> Seq<(Seq<char>, Seq<char>)> {
    match tag_value(s, code) {
        Some(c) => if balance_from(c, 0) is Some {
            seq![(tp, c)]
        } else {
            seq![]
        },
        None => seq![],
    }
}

/// The balances of block 4 in the order of their tags `:60F:` (opening
/// booked), `:60M:` (opening available), `:62F:` (closing booked),
/// `:62M:` (closing available), `:64:` (interim available) and `:65:`
/// (forward available); any other balance tag is not read.
pub open spec fn balance_sources(s: Seq<char>) -> Seq<(Seq<char>, Seq<char>)> {
    balance_source(s, ":60F:"@, "OPBD"@) + balance_source(s, ":60M:"@, "OPAV"@) + balance_source(
        s,
        ":62F:"@,
        "CLBD"@,
    ) + balance_source(s, ":62M:"@, "CLAV"@) + balance_source(s, ":64:"@, "ITAV"@)
        + balance_source(s, ":65:"@, "FPAV"@)
}

/// A balance read from a `(type, field value)` pair.
pub open spec fn balance_typed(b: BalanceAttribute, src: (Seq<char>, Seq<char>)) -> bool {
    &&& balance_fields(b, src.1, balance_from(src.1, 0)->0)
    &&& b.tp.cd_or_prtry.cd@ == src.0
}

/// The balances `bs` end with ones read from `srcs`, after the first `n`.
pub open spec fn balances_typed(bs: Seq<BalanceAttribute>, n: int, srcs: Seq<(Seq<char>, Seq<char>)>) -> bool {
    &&& bs.len() == n + srcs.len()
    &&& forall|i: int| 0 <= i < srcs.len() ==> balance_typed(#[trigger] bs[n + i], srcs[i])
}

/// The currency of the first balance, or empty.
pub open spec fn first_currency(bs: Seq<BalanceAttribute>) -> Seq<char> {
    if bs.len() > 0 {
        bs[0].amt.ccy@
    } else {
        seq![]
    }
}

/// Everything but the fields that block 4 writes stays.
pub open spec fn block_four_frame(a: BkToCstmrStmt, b: BkToCstmrStmt) -> bool {
    &&& b.grp_hdr.cre_dt_tm == a.grp_hdr.cre_dt_tm
    &&& b.stmt.cre_dt_tm == a.stmt.cre_dt_tm
    &&& b.stmt.fr_to_dt == a.stmt.fr_to_dt
    &&& b.stmt.acct.id == a.stmt.acct.id
    &&& b.stmt.acct.ccy == a.stmt.acct.ccy
    &&& b.stmt.acct.nm == a.stmt.acct.nm
    &&& b.stmt.acct.svcr == a.stmt.acct.svcr
    &&& b.stmt.acct.ownr.nm == a.stmt.acct.ownr.nm
    &&& b.stmt.acct.ownr.pstl_adr == a.stmt.acct.ownr.pstl_adr
    &&& b.stmt.acct.ownr.bldg_nb == a.stmt.acct.ownr.bldg_nb
    &&& b.stmt.acct.ownr.pst_cd == a.stmt.acct.ownr.pst_cd
    &&& b.stmt.acct.ownr.twn_nm == a.stmt.acct.ownr.twn_nm
    &&& b.stmt.acct.ownr.ctry == a.stmt.acct.ownr.ctry
    &&& b.stmt.acct.ownr.id.org_id.othr.schme_nm == a.stmt.acct.ownr.id.org_id.othr.schme_nm
    &&& b.stmt.txs_summry == a.stmt.txs_summry
}

/// What reading block 4 `s` changes in statement `a`, giving `b`.
pub open spec fn block_four_read(a: BkToCstmrStmt, b: BkToCstmrStmt, s: Seq<char>) -> bool {
    &&& block_four_frame(a, b)
    &&& match tag_value(s, ":26:"@) {
        Some(c) => b.grp_hdr.msg_id@ == c && b.stmt.id@ == c,
        None => b.grp_hdr.msg_id == a.grp_hdr.msg_id && b.stmt.id == a.stmt.id,
    }
    &&& match tag_value(s, ":25:"@) {
        Some(c) => b.stmt.acct.ownr.id.org_id.othr.id@ == c,
        None => b.stmt.acct.ownr.id.org_id.othr.id == a.stmt.acct.ownr.id.org_id.othr.id,
    }
    &&& match tag_value(s, ":28C:"@) {
        Some(c) => if index_from(c, '/', 0) < c.len() {
            &&& b.stmt.elctrnc_seq_nb@ == c.subrange(0, index_from(c, '/', 0))
            &&& b.stmt.lgl_seq_nb@ == c.subrange(index_from(c, '/', 0) + 1, index_from(c, '/', index_from(c, '/', 0) + 1))
        } else {
            b.stmt.elctrnc_seq_nb == a.stmt.elctrnc_seq_nb && b.stmt.lgl_seq_nb == a.stmt.lgl_seq_nb
        },
        None => b.stmt.elctrnc_seq_nb == a.stmt.elctrnc_seq_nb && b.stmt.lgl_seq_nb == a.stmt.lgl_seq_nb,
    }
    &&& b.stmt.bal@.take(a.stmt.bal@.len() as int) == a.stmt.bal@
    &&& balances_typed(b.stmt.bal@, a.stmt.bal@.len() as int, balance_sources(s))
    &&& if lines_61(s).len() == lines_86(s).len() {
        entries_read(b.stmt.ntry@, s, first_currency(b.stmt.bal@))
    } else {
        b.stmt.ntry == a.stmt.ntry
    }
}

/// The statement as block 1 leaves it: blank but for the BIC.
pub open spec fn block_one_read(r: BkToCstmrStmt, s: Seq<char>) -> bool {
    &&& match block_from(s, "{1:"@, 0) {
        Some(c) => r.stmt.acct.svcr.fin_instn_id.bic@ == block_one_bic(c),
        None => r.stmt.acct.svcr.fin_instn_id.bic@.len() == 0,
    }
    &&& r.grp_hdr.is_blank()
    &&& r.stmt.id@.len() == 0
    &&& r.stmt.elctrnc_seq_nb@.len() == 0
    &&& r.stmt.lgl_seq_nb@.len() == 0
    &&& r.stmt.cre_dt_tm@.len() == 0
    &&& r.stmt.fr_to_dt.is_blank()
    &&& r.stmt.acct.id.is_blank()
    &&& r.stmt.acct.ccy@.len() == 0
    &&& r.stmt.acct.nm@.len() == 0
    &&& r.stmt.acct.ownr.is_blank()
    &&& r.stmt.acct.svcr.fin_instn_id.nm@.len() == 0
    &&& r.stmt.acct.svcr.fin_instn_id.pstl_adr.is_blank()
    &&& r.stmt.bal@.len() == 0
    &&& r.stmt.txs_summry.is_blank()
    &&& r.stmt.ntry@.len() == 0
}

/// A record read in three stages: block 1 gives `r1`, block 2 turns it
/// into `r2`, block 4 turns that into `r`.
pub open spec fn record_stages(r1: BkToCstmrStmt, r2: BkToCstmrStmt, r: BkToCstmrStmt, s: Seq<char>) -> bool {
    &&& block_one_read(r1, s)
    &&& match block_from(s, "{2:"@, 0) {
        Some(c) => block_two_read(r1, r2, c),
        None => r2 == r1,
    }
    &&& match block_from(s, "{4:"@, 0) {
        Some(c) => block_four_read(r2, r, c),
        None => r == r2,
    }
}

/// Whether block 4 of a record has not as many `:86:` fields as `:61:`
/// lines.
pub open spec fn entry_counts_differ(s: Seq<char>) -> bool {
    match block_from(s, "{4:"@, 0) {
        Some(c) => lines_61(c).len() != lines_86(c).len(),
        None => false,
    }
}

/// The statement that an MT940 record describes.
pub open spec fn record_read(r: BkToCstmrStmt, s: Seq<char>) -> bool {
    exists|r1: BkToCstmrStmt, r2: BkToCstmrStmt| #[trigger] record_stages(r1, r2, r, s)
}

/// The six balance reads of block 4 append the balances in tag order.
proof fn lemma_balances_chain(
    b0: Seq<BalanceAttribute>,
    b1: Seq<BalanceAttribute>,
    b2: Seq<BalanceAttribute>,
    b3: Seq<BalanceAttribute>,
    b4: Seq<BalanceAttribute>,
    b5: Seq<BalanceAttribute>,
    b6: Seq<BalanceAttribute>,
    s: Seq<char>,
)
    requires
        b1.take(b0.len() as int) == b0,
        balances_typed(b1, b0.len() as int, balance_source(s, ":60F:"@, "OPBD"@)),
        b2.take(b1.len() as int) == b1,
        balances_typed(b2, b1.len() as int, balance_source(s, ":60M:"@, "OPAV"@)),
        b3.take(b2.len() as int) == b2,
        balances_typed(b3, b2.len() as int, balance_source(s, ":62F:"@, "CLBD"@)),
        b4.take(b3.len() as int) == b3,
        balances_typed(b4, b3.len() as int, balance_source(s, ":62M:"@, "CLAV"@)),
        b5.take(b4.len() as int) == b4,
        balances_typed(b5, b4.len() as int, balance_source(s, ":64:"@, "ITAV"@)),
        b6.take(b5.len() as int) == b5,
        balances_typed(b6, b5.len() as int, balance_source(s, ":65:"@, "FPAV"@)),
    ensures
        b6.take(b0.len() as int) == b0,
        balances_typed(b6, b0.len() as int, balance_sources(s)),
{
    let srcs = balance_sources(s);
    let n = b0.len() as int;
    assert(b6.take(b0.len() as int) =~= b0) by {
        assert forall|i: int| 0 <= i < b0.len() implies b6[i] == b0[i] by {
            assert(b6[i] == b5[i] && b5[i] == b4[i] && b4[i] == b3[i]) by {
                assert(b6.take(b5.len() as int)[i] == b6[i]);
                assert(b5.take(b4.len() as int)[i] == b5[i]);
                assert(b4.take(b3.len() as int)[i] == b4[i]);
            }
            assert(b3[i] == b2[i] && b2[i] == b1[i] && b1[i] == b0[i]) by {
                assert(b3.take(b2.len() as int)[i] == b3[i]);
                assert(b2.take(b1.len() as int)[i] == b2[i]);
                assert(b1.take(b0.len() as int)[i] == b1[i]);
            }
        }
    }
    assert forall|i: int| 0 <= i < srcs.len() implies balance_typed(#[trigger] b6[n + i], srcs[i]) by {
        let s1 = balance_source(s, ":60F:"@, "OPBD"@);
        let s2 = balance_source(s, ":60M:"@, "OPAV"@);
        let s3 = balance_source(s, ":62F:"@, "CLBD"@);
        let s4 = balance_source(s, ":62M:"@, "CLAV"@);
        let s5 = balance_source(s, ":64:"@, "ITAV"@);
        let s6 = balance_source(s, ":65:"@, "FPAV"@);
        let j = n + i;
        if i < s1.len() {
            assert(b6[j] == b1[j]) by {
                assert(b6.take(b5.len() as int)[j] == b6[j]);
                assert(b5.take(b4.len() as int)[j] == b5[j]);
                assert(b4.take(b3.len() as int)[j] == b4[j]);
                assert(b3.take(b2.len() as int)[j] == b3[j]);
                assert(b2.take(b1.len() as int)[j] == b2[j]);
            }
            assert(balance_typed(b1[n + i], s1[i]));
            assert(srcs[i] == s1[i]);
        } else if i < s1.len() + s2.len() {
            assert(b6[j] == b2[j]) by {
                assert(b6.take(b5.len() as int)[j] == b6[j]);
                assert(b5.take(b4.len() as int)[j] == b5[j]);
                assert(b4.take(b3.len() as int)[j] == b4[j]);
                assert(b3.take(b2.len() as int)[j] == b3[j]);
            }
            assert(balance_typed(b2[b1.len() + (i - s1.len())], s2[i - s1.len()]));
            assert(srcs[i] == s2[i - s1.len()]);
        } else if i < s1.len() + s2.len() + s3.len() {
            assert(b6[j] == b3[j]) by {
                assert(b6.take(b5.len() as int)[j] == b6[j]);
                assert(b5.take(b4.len() as int)[j] == b5[j]);
                assert(b4.take(b3.len() as int)[j] == b4[j]);
            }
            let k = i - s1.len() - s2.len();
            assert(balance_typed(b3[b2.len() + k], s3[k]));
            assert(srcs[i] == s3[k]);
        } else if i < s1.len() + s2.len() + s3.len() + s4.len() {
            assert(b6[j] == b4[j]) by {
                assert(b6.take(b5.len() as int)[j] == b6[j]);
                assert(b5.take(b4.len() as int)[j] == b5[j]);
            }
            let k = i - s1.len() - s2.len() - s3.len();
            assert(balance_typed(b4[b3.len() + k], s4[k]));
            assert(srcs[i] == s4[k]);
        } else if i < s1.len() + s2.len() + s3.len() + s4.len() + s5.len() {
            assert(b6[j] == b5[j]) by {
                assert(b6.take(b5.len() as int)[j] == b6[j]);
            }
            let k = i - s1.len() - s2.len() - s3.len() - s4.len();
            assert(balance_typed(b5[b4.len() + k], s5[k]));
            assert(srcs[i] == s5[k]);
        } else {
            let k = i - s1.len() - s2.len() - s3.len() - s4.len() - s5.len();
            assert(balance_typed(b6[b5.len() + k], s6[k]));
            assert(srcs[i] == s6[k]);
        }
    }
}

/// The date digits of `d` from index `from` up to the eighth, once its
/// hyphens are taken out; empty when fewer than eight remain.
pub open spec fn short_date(d: Seq<char>, from: int) -> Seq<char> {
    let x = replaced(d, "-"@, ""@);
    if x.len() >= 8 {
        x.subrange(from, 8)
    } else {
        seq![]
    }
}

/// A dot-decimal amount as MT940 writes it, with a comma.
pub open spec fn wire_amount(a: Seq<char>) -> Seq<char> {
    replaced(a, "."@, ","@)
}

/// The MT940 tag of a balance type code, if it is one of the six.
pub open spec fn balance_tag(code: Seq<char>) -> Option<Seq<char>> {
    if code == "OPBD"@ {
        Some(":60F:"@)
    } else if code == "OPAV"@ {
        Some(":60M:"@)
    } else if code == "CLBD"@ {
        Some(":62F:"@)
    } else if code == "CLAV"@ {
        Some(":62M:"@)
    } else if code == "ITAV"@ {
        Some(":64:"@)
    } else if code == "FPAV"@ {
        Some(":65:"@)
    } else {
        None
    }
}

/// The balance line of `b`; nothing for a balance of another type.
pub open spec fn balance_line(b: BalanceAttribute) -> Seq<char> {
    match balance_tag(b.tp.cd_or_prtry.cd@) {
        Some(t) => t + b.cd@ + short_date(b.dt.dt@, 2) + b.amt.ccy@ + wire_amount(b.amt.amt@)
            + "\n"@,
        None => seq![],
    }
}

pub open spec fn balance_lines(bs: Seq<BalanceAttribute>) -> Seq<char>
    decreases bs.len(),
{
    if bs.len() == 0 {
        seq![]
    } else {
        balance_lines(bs.drop_last()) + balance_line(bs.last())
    }
}

/// A sub-field line `tag value`, left out when the value is empty.
pub open spec fn opt_field(tag: Seq<char>, v: Seq<char>) -> Seq<char> {
    if v.len() == 0 {
        seq![]
    } else {
        tag + v + "\n"@
    }
}

/// Each line followed by a slash.
pub open spec fn slash_joined(us: Seq<Seq<char>>) -> Seq<char>
    decreases us.len(),
{
    if us.len() == 0 {
        seq![]
    } else {
        slash_joined(us.drop_last()) + us.last() + "/"@
    }
}

/// The `:86:` field written for a transaction detail.
pub open spec fn info_text(t: TxDtlsAttribute) -> Seq<char> {
    ":86:/NREF/"@ + t.refs.end_to_end_id@ + "\n"@ + opt_field("/CRNM/"@, t.rltd_pties.cdtr.nm@)
        + opt_field("/CACT/"@, t.rltd_pties.cdtr_acct.other.id@) + opt_field(
        "/CBIC/"@,
        t.rltd_agts.cdtr_agt.fin_instn_id.bic@,
    ) + (if t.rmt_inf.ustrd@.len() == 0 {
        seq![]
    } else {
        "/REMI/"@ + slash_joined(strings_view(t.rmt_inf.ustrd)) + "\n"@
    }) + opt_field("/OPRP/"@, t.addtl_tx_inf@) + opt_field(
        "/DACT/"@,
        t.rltd_pties.dbtr_acct.other.id@,
    ) + opt_field("/OAMT/"@, t.amt_dtls.amt@) + opt_field("/DCID/"@, t.rltd_pties.dbtr.id.othr.id@)
}

pub open spec fn infos_text(ts: Seq<TxDtlsAttribute>) -> Seq<char>
    decreases ts.len(),
{
    if ts.len() == 0 {
        seq![]
    } else {
        infos_text(ts.drop_last()) + info_text(ts.last())
    }
}

/// The `:61:` line of an entry: value date `YYMMDD`, booking date `MMDD`,
/// `C` for a credit and `D` otherwise, comma amount, transaction code and
/// the first detail's end-to-end reference.
pub open spec fn line61_text(n: NtryAttribute) -> Seq<char> {
    ":61:"@ + short_date(n.val_dt.dt@, 2) + short_date(n.bookg_dt.dt@, 4) + (if n.cdt_dbt_ind@
        == "CRDT"@ {
        "C"@
    } else {
        "D"@
    }) + wire_amount(n.amt.amt@) + n.bk_tx_cd.prtry.cd@ + (if n.ntry_dtls.tx_dtls@.len() > 0 {
        n.ntry_dtls.tx_dtls@[0].refs.end_to_end_id@ + " "@
    } else {
        seq![]
    }) + "\n"@
}

/// An entry as MT940 writes it: its `:61:` line, then one `:86:` field per
/// transaction detail.
pub open spec fn entry_text(n: NtryAttribute) -> Seq<char> {
    line61_text(n) + infos_text(n.ntry_dtls.tx_dtls@)
}

pub open spec fn entries_text(ns: Seq<NtryAttribute>) -> Seq<char>
    decreases ns.len(),
{
    if ns.len() == 0 {
        seq![]
    } else {
        entries_text(ns.drop_last()) + entry_text(ns.last())
    }
}

/// A statement as one MT940 record.
pub open spec fn record_text(r: BkToCstmrStmt) -> Seq<char> {
    "{1:F01"@ + r.stmt.acct.svcr.fin_instn_id.bic@ + "}\n"@ + "{2:"@ + r.grp_hdr.msg_id@
        + "}\n{3:}\n{4:\n"@ + ":20:"@ + r.grp_hdr.msg_id@ + "\n"@ + ":25:"@
        + r.stmt.acct.ownr.id.org_id.othr.id@ + "\n"@ + ":28C:"@ + r.stmt.elctrnc_seq_nb@ + "/"@
        + r.stmt.lgl_seq_nb@ + "\n"@ + balance_lines(r.stmt.bal@) + entries_text(r.stmt.ntry@)
        + "}\n{5:-}\n"@
}

pub open spec fn records_text(rs: Seq<BkToCstmrStmt>) -> Seq<char>
    decreases rs.len(),
{
    if rs.len() == 0 {
        seq![]
    } else {
        records_text(rs.drop_last()) + record_text(rs.last())
    }
}

/// Amounts cross between the MT940 form (decimal comma) and the canonical
/// form (decimal dot) by exact character substitution: a comma becomes a
/// dot, or a dot a comma, and every other character stays, so nothing is
/// rounded. An amount that holds no character of the other kind comes back
/// unchanged.
pub proof fn law_amount_substitution(wire: Seq<char>, canonical: Seq<char>)
    ensures
        replaced(wire, ","@, "."@) == wire.map_values(|c: char| if c == ',' { '.' } else { c }),
        wire_amount(canonical) == canonical.map_values(|c: char| if c == '.' { ',' } else { c }),
        !wire.contains('.') ==> wire_amount(replaced(wire, ","@, "."@)) == wire,
        !canonical.contains(',') ==> replaced(wire_amount(canonical), ","@, "."@) == canonical,
{
    reveal_strlit(",");
    reveal_strlit(".");
    assert(","@ =~= seq![',']);
    assert("."@ =~= seq!['.']);
    let to_dot = |c: char| if c == ',' { '.' } else { c };
    let to_comma = |c: char| if c == '.' { ',' } else { c };
    lemma_replaced_char(wire, ',', '.');
    lemma_replaced_char(canonical, '.', ',');
    lemma_replaced_char(wire.map_values(to_dot), '.', ',');
    lemma_replaced_char(canonical.map_values(to_comma), ',', '.');
    if !wire.contains('.') {
        assert(wire.map_values(to_dot).map_values(to_comma) =~= wire) by {
            assert forall|i: int| 0 <= i < wire.len() implies wire.map_values(to_dot).map_values(
                to_comma,
            )[i] == wire[i] by {
                assert(wire[i] != '.') by {
                    if wire[i] == '.' {
                        assert(wire.contains('.'));
                    }
                }
            }
        }
    }
    if !canonical.contains(',') {
        assert(canonical.map_values(to_comma).map_values(to_dot) =~= canonical) by {
            assert forall|i: int| 0 <= i < canonical.len() implies canonical.map_values(
                to_comma,
            ).map_values(to_dot)[i] == canonical[i] by {
                assert(canonical[i] != ',') by {
                    if canonical[i] == ',' {
                        assert(canonical.contains(','));
                    }
                }
            }
        }
    }
}

/// In the `:61:` line of an entry, the amount stands right after the `C`
/// or `D` letter, as the entry's dot-decimal amount with the dot replaced
/// by a comma and nothing else changed.
pub proof fn law_line61_amount(n: NtryAttribute)
    ensures
        ({
            let head = ":61:"@ + short_date(n.val_dt.dt@, 2) + short_date(n.bookg_dt.dt@, 4);
            let k = head.len() as int + 1;
            let w = wire_amount(n.amt.amt@);
            &&& line61_text(n).subrange(0, head.len() as int) == head
            &&& line61_text(n)[k - 1] == (if n.cdt_dbt_ind@ == "CRDT"@ { 'C' } else { 'D' })
            &&& line61_text(n).subrange(k, k + w.len()) == w
            &&& w == n.amt.amt@.map_values(|c: char| if c == '.' { ',' } else { c })
        }),
{
    reveal_strlit("C");
    reveal_strlit("D");
    let head = ":61:"@ + short_date(n.val_dt.dt@, 2) + short_date(n.bookg_dt.dt@, 4);
    let letter = if n.cdt_dbt_ind@ == "CRDT"@ { "C"@ } else { "D"@ };
    let w = wire_amount(n.amt.amt@);
    let rest = n.bk_tx_cd.prtry.cd@ + (if n.ntry_dtls.tx_dtls@.len() > 0 {
        n.ntry_dtls.tx_dtls@[0].refs.end_to_end_id@ + " "@
    } else {
        seq![]
    }) + "\n"@;
    let line = line61_text(n);
    assert(line =~= head + letter + w + rest);
    let k = head.len() as int + 1;
    assert(line.subrange(0, head.len() as int) =~= head);
    assert(line[k - 1] == letter[0]);
    assert(line.subrange(k, k + w.len()) =~= w);
    law_amount_substitution(seq![], n.amt.amt@);
}

/// The bounds of each record of an MT940 document, as character positions:
/// the `n`th record start paired with the `n`th end; `None` when a record
/// start has no end to pair with.
pub open spec fn record_bounds(s: Seq<char>) -> Option<Seq<(int, int)>> {
    let st = record_starts(s);
    let en = record_ends(s);
    if st.len() <= en.len() {
        Some(Seq::new(st.len(), |k: int| (st[k], en[k])))
    } else {
        None
    }
}

/// Record bounds as integers.
pub open spec fn bounds_view(v: Vec<(usize, usize)>) -> Seq<(int, int)> {
    v@.map_values(|x: (usize, usize)| (x.0 as int, x.1 as int))
}

/// An MT940 document: the statements it carries.
pub struct DocumentMt940 {
    pub document: Vec<BkToCstmrStmt>,
}

impl DocumentMt940 {
    /// Pairs the `n`th record start `{1` with the `n`th end `{5:`.
    pub fn find_record(document: &str) -> (r: Option<Vec<(usize, usize)>>)
        ensures
            r is Some <==> record_bounds(document@) is Some,
            r matches Some(v) ==> Some(bounds_view(v)) == record_bounds(document@),
    {
        let s = chars_of(document);
        let st = positions(&s, &chars_of("{1"));
        let en = positions(&s, &chars_of("{5:"));
        if st.len() > en.len() {
            return None;
        }
        let mut records: Vec<(usize, usize)> = Vec::new();
        let mut k: usize = 0;
        while k < st.len()
            invariant
                k <= st.len() <= en.len(),
                st@.map_values(|x: usize| x as int) == record_starts(document@),
                en@.map_values(|x: usize| x as int) == record_ends(document@),
                records@.len() == k,
                forall|j: int|
                    0 <= j < k ==> #[trigger] records@[j] == (st@[j], en@[j]),
            decreases st.len() - k,
        {
            records.push((st[k], en[k]));
            k = k + 1;
        }
        proof {
            let st_s = record_starts(document@);
            let en_s = record_ends(document@);
            assert(st@.map_values(|x: usize| x as int).len() == st@.len());
            assert(bounds_view(records) =~= Seq::new(st_s.len(), |k: int| (st_s[k], en_s[k]))) by {
                assert forall|j: int| 0 <= j < st_s.len() implies bounds_view(records)[j] == (
                st_s[j], en_s[j]) by {
                    assert(st@.map_values(|x: usize| x as int)[j] == st@[j] as int);
                    assert(en@.map_values(|x: usize| x as int)[j] == en@[j] as int);
                }
            }
        }
        Some(records)
    }

    /// The BIC of block 1, or `UNKNOWN_BIC` when none is found.
    pub fn parse_field_one(header: &str) -> (r: String)
        ensures
            r@ == block_one_bic(header@),
    {
        let s = chars_of(header);
        let mut p: usize = 0;
        while p < s.len()
            invariant
                s@ == header@,
                bic_from(s@, p as int) == bic_from(s@, 0),
            decreases s.len() - p,
        {
            if s[p] == 'F' && s.len() - p >= 3 && has_class(CharClass::Digit, s[p + 1])
                && has_class(CharClass::Digit, s[p + 2]) {
                let q = p + 3 + run_at(&s, p + 3, CharClass::Upper);
                let r = q + run_at(&s, q, CharClass::Digit);
                let t = r + run_at(&s, r, CharClass::Upper);
                if t < s.len() && has_class(CharClass::Digit, s[t]) {
                    return string_range(&s, p + 3, t);
                }
                if r > q {
                    return string_range(&s, p + 3, r - 1);
                }
            }
            p = p + 1;
        }
        String::from_str("UNKNOWN_BIC")
    }

    /// Reads the message id out of block 2 into the header and the
    /// statement id.
    pub fn parse_field_two(header: &str, document: &mut BkToCstmrStmt)
        ensures
            block_two_read(*old(document), *final(document), header@),
    {
        let s = chars_of(header);
        let mut p: usize = 0;
        while p < s.len()
            invariant
                s@ == header@,
                *document == *old(document),
                msg_id_from(s@, p as int) == msg_id_from(s@, 0),
            decreases s.len() - p,
        {
            if s.len() - p >= 5 && (s[p] == 'I' || s[p] == 'O') && run_at(&s, p + 1, CharClass::Digit)
                >= 3 && has_class(CharClass::Word, s[p + 4]) {
                let n = run_at(&s, p + 4, CharClass::Word);
                let id = string_range(&s, p + 4, p + 4 + n);
                let mut stmt_id = id.clone();
                stmt_id.append("-940");
                document.grp_hdr.msg_id = id;
                document.stmt.id = stmt_id;
                return;
            }
            p = p + 1;
        }
    }

    /// The first balance of a balance field, if it has one.
    pub fn parse_field_balance(header: &str) -> (r: Option<BalanceAttribute>)
        ensures
            r is Some <==> balance_from(header@, 0) is Some,
            r matches Some(b) ==> balance_read(b, header@, balance_from(header@, 0)->0),
    {
        let s = chars_of(header);
        let mut p: usize = 0;
        while p < s.len()
            invariant
                s@ == header@,
                balance_from(s@, p as int) == balance_from(s@, 0),
            decreases s.len() - p,
        {
            if s.len() - p >= 7 && (s[p] == 'C' || s[p] == 'D') && run_at(&s, p + 1, CharClass::Digit)
                >= 6 {
                let u = run_at(&s, p + 7, CharClass::Upper);
                let d1 = run_at(&s, p + 7 + u, CharClass::Digit);
                let e = p + 7 + u + d1;
                if u >= 1 && d1 >= 1 && e < s.len() && s[e] == ',' {
                    let d2 = run_at(&s, e + 1, CharClass::Digit);
                    if d2 >= 1 {
                        let mut balance = BalanceAttribute::default();
                        balance.dt = DtAttribute::format_dt(string_range(&s, p + 1, p + 7).as_str());
                        balance.amt.ccy = string_range(&s, p + 7, p + 7 + u);
                        let amount = string_range(&s, p + 7 + u, e + 1 + d2);
                        balance.amt.amt = replace_all(amount.as_str(), ",", ".");
                        balance.cd = string_range(&s, p, p + 1);
                        return Some(balance);
                    }
                }
            }
            p = p + 1;
        }
        None
    }

    /// Reads the sub-fields of an `:86:` field into a new transaction
    /// detail, whose end-to-end reference is then set to `refs`, and
    /// appends it to `ntrydet`.
    pub fn parse_field_86(field: &str, refs: String, ntrydet: &mut NtryDtlsAttribute)
        ensures
            final(ntrydet).btch == old(ntrydet).btch,
            final(ntrydet).tx_dtls@.len() == old(ntrydet).tx_dtls@.len() + 1,
            final(ntrydet).tx_dtls@.drop_last() == old(ntrydet).tx_dtls@,
            tx_from_tags(final(ntrydet).tx_dtls@.last(), sub_tags_from(field@, 0), refs@),
    {
        let s = chars_of(field);
        let mut tlds = TxDtlsAttribute::default();
        let ghost mut done: Seq<(Seq<char>, Seq<char>)> = seq![];
        let mut p: usize = 0;
        proof {
            assert(strings_view(tlds.rmt_inf.ustrd) =~= seq![]);
            assert(!has_tag(done, ('N', 'R', 'E', 'F')));
            assert(forall|keys: Set<(char, char, char, char)>| #[trigger] last_value(done, keys)
                == Seq::<char>::empty());
            assert(values_of(done, ('R', 'E', 'M', 'I')) == Seq::<Seq<char>>::empty());
            lemma_blank_tx(tlds);
        }
        while p < s.len()
            invariant
                s@ == field@,
                p <= s.len(),
                done + sub_tags_from(s@, p as int) == sub_tags_from(s@, 0),
                tx_from_tags(tlds, done, last_value(done, set![('E', 'R', 'E', 'F')])),
            decreases s.len() - p,
        {
            if s.len() - p >= 6 && s[p] == '/' && run_at(&s, p + 1, CharClass::Upper) >= 4 && s[p
                + 5] == '/' {
                let w = run_at(&s, p + 6, CharClass::Word);
                let value = string_range(&s, p + 6, p + 6 + w);
                let ghost pair = (s@.subrange(p + 1, p + 5), value@);
                proof {
                    lemma_tags_push(done, pair);
                    assert(done + sub_tags_from(s@, p as int) =~= done.push(pair) + sub_tags_from(
                        s@,
                        p + 6 + w,
                    ));
                }
                let k = p + 1;
                if is_key(&s, k, ('E', 'R', 'E', 'F')) {
                    tlds.refs.end_to_end_id = value;
                } else if is_key(&s, k, ('C', 'R', 'N', 'M')) {
                    tlds.rltd_pties.cdtr.nm = value;
                } else if is_key(&s, k, ('C', 'A', 'C', 'T')) {
                    tlds.rltd_pties.cdtr_acct.other.id = value;
                } else if is_key(&s, k, ('C', 'B', 'I', 'C')) {
                    tlds.rltd_agts.cdtr_agt.fin_instn_id.bic = value;
                } else if is_key(&s, k, ('R', 'E', 'M', 'I')) {
                    tlds.rmt_inf.ustrd.push(value);
                    assert(strings_view(tlds.rmt_inf.ustrd) =~= values_of(done, ('R', 'E', 'M', 'I')).push(
                        pair.1,
                    ));
                } else if is_key(&s, k, ('O', 'P', 'R', 'P')) {
                    tlds.addtl_tx_inf = value;
                } else if is_key(&s, k, ('D', 'A', 'C', 'T')) {
                    tlds.rltd_pties.dbtr_acct.other.id = value;
                } else if is_key(&s, k, ('D', 'B', 'I', 'C')) {
                    tlds.rltd_pties.dbtr_acct.other.id = value;
                } else if is_key(&s, k, ('O', 'A', 'M', 'T')) {
                    tlds.amt_dtls.amt = value;
                } else if is_key(&s, k, ('D', 'C', 'I', 'D')) {
                    tlds.rltd_pties.dbtr.id.othr.id = value;
                } else if is_key(&s, k, ('N', 'R', 'E', 'F')) {
                    tlds.refs.prtry.refdt = value;
                    tlds.refs.prtry.tp = String::from_str("NREF");
                }
                proof {
                    done = done.push(pair);
                }
                p = p + 6 + w;
            } else {
                p = p + 1;
            }
        }
        proof {
            assert(sub_tags_from(s@, p as int) =~= seq![]);
            assert(done + seq![] =~= done);
        }
        tlds.refs.end_to_end_id = refs;
        ntrydet.tx_dtls.push(tlds);
        assert(final(ntrydet).tx_dtls@.drop_last() =~= old(ntrydet).tx_dtls@);
    }

    /// Reads a statement line `field.0` and its information field `field.1`
    /// into `ntry`, in currency `vault`; without a statement line, `ntry`
    /// stays as it is.
    pub fn parse_field_61(field: (&str, &str), vault: &str, ntry: &mut NtryAttribute)
        ensures
            line61_read(*old(ntry), *final(ntry), field.0@, field.1@, vault@),
    {
        let s = chars_of(field.0);
        let mut p: usize = 0;
        while p < s.len()
            invariant
                s@ == field.0@,
                *ntry == *old(ntry),
                line61_from(s@, p as int) == line61_from(s@, 0),
            decreases s.len() - p,
        {
            if s.len() - p >= 11 && run_at(&s, p, CharClass::Digit) >= 10 && (s[p + 10] == 'C' || s[p
                + 10] == 'D') {
                let a1 = run_at(&s, p + 11, CharClass::Digit);
                if a1 >= 1 && p + 11 + a1 < s.len() && s[p + 11 + a1] == ',' {
                    let a2 = run_at(&s, p + 12 + a1, CharClass::Digit);
                    let f = p + 12 + a1 + a2;
                    if a2 >= 1 && run_at(&s, f, CharClass::Upper) >= 4 {
                        proof {
                            lemma_run_chars(s@, f as int, CharClass::Upper);
                        }
                        let w = run_at(&s, f + 4, CharClass::Word);
                        if w >= 1 {
                            ntry.val_dt = DtAttribute::format_dt(string_range(&s, p, p + 6).as_str());
                            let mut book = string_range(&s, p, p + 2);
                            book.append(string_range(&s, p + 6, p + 10).as_str());
                            ntry.bookg_dt = DtAttribute::format_dt(book.as_str());
                            ntry.bk_tx_cd.prtry.cd = string_range(&s, f, f + 4);
                            let amount = string_range(&s, p + 11, f);
                            ntry.amt.amt = replace_all(amount.as_str(), ",", ".");
                            ntry.amt.ccy = String::from_str(vault);
                            ntry.cdt_dbt_ind = if s[p + 10] == 'C' {
                                String::from_str("CRDT")
                            } else {
                                String::from_str("DBIT")
                            };
                            let mut nxdet = NtryDtlsAttribute::default();
                            DocumentMt940::parse_field_86(field.1, string_range(&s, f + 4, f + 4 + w), &mut nxdet);
                            ntry.ntry_dtls = nxdet;
                            return;
                        }
                    }
                }
            }
            p = p + 1;
        }
    }

    /// The entries of block 4, one per `:61:`/`:86:` pair, in currency
    /// `vault`; `None` when the two kinds of field are not equally many.
    pub fn parse_field_ntry(header: &str, vault: &str) -> (r: Option<Vec<NtryAttribute>>)
        ensures
            r is Some <==> lines_61(header@).len() == lines_86(header@).len(),
            r matches Some(v) ==> entries_read(v@, header@, vault@),
    {
        let s = chars_of(header);
        let field_61 = entry_fields(&s, ":61:", true);
        let field_86 = entry_fields(&s, ":86:", false);
        assert(strings_view(field_61).len() == field_61@.len());
        assert(strings_view(field_86).len() == field_86@.len());
        if field_61.len() != field_86.len() {
            return None;
        }
        let mut nxtry: Vec<NtryAttribute> = Vec::new();
        let mut i: usize = 0;
        while i < field_61.len()
            invariant
                s@ == header@,
                strings_view(field_61) == lines_61(header@),
                strings_view(field_86) == lines_86(header@),
                field_61@.len() == field_86@.len(),
                i <= field_61@.len(),
                nxtry@.len() == i,
                forall|j: int|
                    0 <= j < i ==> entry_read(
                        #[trigger] nxtry@[j],
                        lines_61(header@)[j],
                        lines_86(header@)[j],
                        vault@,
                    ),
            decreases field_61.len() - i,
        {
            let mut ntry = NtryAttribute::default();
            DocumentMt940::parse_field_61((field_61[i].as_str(), field_86[i].as_str()), vault, &mut ntry);
            assert(strings_view(field_61)[i as int] == field_61@[i as int]@);
            assert(strings_view(field_86)[i as int] == field_86@[i as int]@);
            assert(entry_read(ntry, field_61@[i as int]@, field_86@[i as int]@, vault@));
            nxtry.push(ntry);
            i = i + 1;
        }
        Some(nxtry)
    }

    /// Reads the fields of block 4 into `document`: `:26:` (message and
    /// statement id), `:25:` (account), `:28C:` (sequence numbers), the
    /// balances, then the entries.
    pub fn parse_field_foo(header: &str, document: &mut BkToCstmrStmt)
        ensures
            block_four_read(*old(document), *final(document), header@),
    {
        let s = chars_of(header);
        if let Some(c) = tag_field(&s, ":26:") {
            document.grp_hdr.msg_id = c.clone();
            document.stmt.id = c;
        }
        if let Some(c) = tag_field(&s, ":25:") {
            document.stmt.acct.ownr.id.org_id.othr.id = c;
        }
        if let Some(c) = tag_field(&s, ":28C:") {
            let cs = chars_of(c.as_str());
            let k = find_char(&cs, '/', 0);
            if k < cs.len() {
                let k2 = find_char(&cs, '/', k + 1);
                document.stmt.elctrnc_seq_nb = string_range(&cs, 0, k);
                document.stmt.lgl_seq_nb = string_range(&cs, k + 1, k2);
            }
        }
        let ghost mid = *document;
        read_balance(&s, ":60F:", "OPBD", document);
        let ghost d1 = *document;
        read_balance(&s, ":60M:", "OPAV", document);
        let ghost d2 = *document;
        read_balance(&s, ":62F:", "CLBD", document);
        let ghost d3 = *document;
        read_balance(&s, ":62M:", "CLAV", document);
        let ghost d4 = *document;
        read_balance(&s, ":64:", "ITAV", document);
        let ghost d5 = *document;
        read_balance(&s, ":65:", "FPAV", document);
        proof {
            lemma_balances_chain(mid.stmt.bal@, d1.stmt.bal@, d2.stmt.bal@, d3.stmt.bal@,
                d4.stmt.bal@, d5.stmt.bal@, document.stmt.bal@, s@);
        }
        let vault = if document.stmt.bal.len() > 0 {
            document.stmt.bal[0].amt.ccy.clone()
        } else {
            String::new()
        };
        if let Some(ntry) = DocumentMt940::parse_field_ntry(header, vault.as_str()) {
            document.stmt.ntry = ntry;
        }
    }

    /// Reads one record: the BIC of block 1, the message id of block 2 and
    /// the fields of block 4 into a fresh statement; `None` when block 4
    /// has not as many `:86:` fields as `:61:` lines.
    pub fn parse_one_record(document: &str) -> (r: Option<BkToCstmrStmt>)
        ensures
            r is None <==> entry_counts_differ(document@),
            r matches Some(rec) ==> record_read(rec, document@),
    {
        let s = chars_of(document);
        let mut record = BkToCstmrStmt::default();
        if let Some(c) = find_block(&s, "{1:") {
            record.stmt.acct.svcr.fin_instn_id.bic = DocumentMt940::parse_field_one(c.as_str());
        }
        let ghost r1 = record;
        if let Some(c) = find_block(&s, "{2:") {
            DocumentMt940::parse_field_two(c.as_str(), &mut record);
        }
        let ghost r2 = record;
        if let Some(c) = find_block(&s, "{4:") {
            let cs = chars_of(c.as_str());
            let field_61 = entry_fields(&cs, ":61:", true);
            let field_86 = entry_fields(&cs, ":86:", false);
            assert(strings_view(field_61).len() == field_61@.len());
            assert(strings_view(field_86).len() == field_86@.len());
            if field_61.len() != field_86.len() {
                return None;
            }
            DocumentMt940::parse_field_foo(c.as_str(), &mut record);
        }
        assert(record_stages(r1, r2, record, document@));
        Some(record)
    }

    /// Appends the balance lines of a statement, in order; a balance
    /// whose type has no MT940 tag is skipped.
    pub fn extract_field_6x_mt940(record_camt: &BkToCstmrStmt, record_write: &mut String)
        ensures
            final(record_write)@ == old(record_write)@ + balance_lines(record_camt.stmt.bal@),
    {
        let bs = &record_camt.stmt.bal;
        let mut k: usize = 0;
        assert(bs@.take(0) =~= seq![]);
        assert(old(record_write)@ + seq![] =~= old(record_write)@);
        while k < bs.len()
            invariant
                k <= bs@.len(),
                record_write@ == old(record_write)@ + balance_lines(bs@.take(k as int)),
            decreases bs.len() - k,
        {
            push_balance(record_write, &bs[k]);
            assert(bs@.take(k + 1).drop_last() =~= bs@.take(k as int));
            k = k + 1;
            assert(record_write@ =~= old(record_write)@ + balance_lines(bs@.take(k as int)));
        }
        assert(bs@.take(k as int) =~= bs@);
    }

    /// Appends the entries of a statement, in order.
    pub fn extract_field_61_86_mt940(record_camt: &Vec<NtryAttribute>, record_write: &mut String)
        ensures
            final(record_write)@ == old(record_write)@ + entries_text(record_camt@),
    {
        let mut k: usize = 0;
        assert(record_camt@.take(0) =~= seq![]);
        assert(old(record_write)@ + seq![] =~= old(record_write)@);
        while k < record_camt.len()
            invariant
                k <= record_camt@.len(),
                record_write@ == old(record_write)@ + entries_text(record_camt@.take(k as int)),
            decreases record_camt.len() - k,
        {
            push_entry(record_write, &record_camt[k]);
            assert(record_camt@.take(k + 1).drop_last() =~= record_camt@.take(k as int));
            k = k + 1;
            assert(record_write@ =~= old(record_write)@ + entries_text(record_camt@.take(k as int)));
        }
        assert(record_camt@.take(k as int) =~= record_camt@);
    }

    /// Writes every statement as one MT940 record, appending to `out`.
    pub fn write_to(&self, out: &mut String)
        ensures
            final(out)@ == old(out)@ + records_text(self.document@),
    {
        let rs = &self.document;
        let mut k: usize = 0;
        assert(rs@.take(0) =~= seq![]);
        assert(old(out)@ + seq![] =~= old(out)@);
        while k < rs.len()
            invariant
                k <= rs@.len(),
                out@ == old(out)@ + records_text(rs@.take(k as int)),
            decreases rs.len() - k,
        {
            let record = &rs[k];
            push_record(out, record);
            assert(rs@.take(k + 1).drop_last() =~= rs@.take(k as int));
            k = k + 1;
            assert(out@ =~= old(out)@ + records_text(rs@.take(k as int)));
        }
        assert(rs@.take(k as int) =~= rs@);
    }

    /// Reads an MT940 document. Its records are parsed and then set aside:
    /// MT940 is offered as an output format only, so the result is always a
    /// format error.
    pub fn from_read(text: &str) -> (r: Result<DocumentMt940, ParserError>)
        ensures
            r matches Err(ParserError::BadInputFormatFile(m)) && m@ == "MT940 input is not supported"@,
    {
        let mut records: Vec<BkToCstmrStmt> = Vec::new();
        if let Some(bounds) = DocumentMt940::find_record(text) {
            let n = text.unicode_len();
            let mut k: usize = 0;
            while k < bounds.len()
                invariant
                    n == text@.len(),
                decreases bounds.len() - k,
            {
                let (a, b) = bounds[k];
                if a <= b && b <= n {
                    if let Some(record) = DocumentMt940::parse_one_record(text.substring_char(a, b)) {
                        records.push(record);
                    }
                }
                k = k + 1;
            }
        }
        Err(ParserError::BadInputFormatFile(String::from_str("MT940 input is not supported")))
    }
}

} // verus!
