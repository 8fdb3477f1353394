//! The CSV codec: a fixed layout of 21 positional columns, with
//! Russian-language labels, month names and currency names.
//!
//! Reading gives entries the canonical indicators `CRDT` and `DBIT` and
//! balances the canonical types `OPBD` and `CLBD`, which writing looks for
//! in turn. The debtor comes from column `e` and the creditor from column
//! `i`, each only when its cell holds exactly three lines.
use std::fmt::Write;
use vstd::prelude::*;
use crate::camt053::{
    BalanceAttribute, BkToCstmrStmt, DocumentCamt053, DtAttribute, NtryAttribute, TxDtlsAttribute,
};
use crate::errors::{ConvertError, ParserError};
use crate::text::{
    chars_of, eq_text, find_char, has_byte_len, utf8_size, opt_view, has_class, index_from, is_digit, matches_at, occurs_at, replace_all,
    replaced, run_at, run_len, string_range, CharClass,
};

verus! {

/// One CSV row: 21 text columns, named `a` to `u` by position.
#[derive(Debug, PartialEq)]
pub struct RowCsv {
    pub a: String,
    pub b: String,
    pub c: String,
    pub d: String,
    pub e: String,
    pub f: String,
    pub g: String,
    pub h: String,
    pub i: String,
    pub j: String,
    pub k: String,
    pub l: String,
    pub m: String,
    pub n: String,
    pub o: String,
    pub p: String,
    pub q: String,
    pub r: String,
    pub s: String,
    pub t: String,
    pub u: String,
}

impl RowCsv {
    /// The columns, in order.
    pub open spec fn view(&self) -> Seq<Seq<char>> {
        seq![self.a@, self.b@, self.c@, self.d@, self.e@, self.f@, self.g@, self.h@, self.i@, self.j@, self.k@, self.l@, self.m@, self.n@, self.o@, self.p@, self.q@, self.r@, self.s@, self.t@, self.u@]
    }

    /// A row whose columns are all empty.
    pub fn new() -> (r: Self)
        ensures
            r@ == blank_row(),
    {
        let r = RowCsv {
            a: String::new(),
            b: String::new(),
            c: String::new(),
            d: String::new(),
            e: String::new(),
            f: String::new(),
            g: String::new(),
            h: String::new(),
            i: String::new(),
            j: String::new(),
            k: String::new(),
            l: String::new(),
            m: String::new(),
            n: String::new(),
            o: String::new(),
            p: String::new(),
            q: String::new(),
            r: String::new(),
            s: String::new(),
            t: String::new(),
            u: String::new(),
        };
        assert(r@ =~= blank_row());
        r
    }
}

/// Twenty-one empty columns.
pub open spec fn blank_row() -> Seq<Seq<char>> {
    Seq::new(21, |i: int| Seq::<char>::empty())
}

/// A CSV document: its rows, in order.
pub struct DocumentCsv {
    pub rows: Vec<RowCsv>,
}

/// The columns of each row.
pub open spec fn rows_view(rows: Seq<RowCsv>) -> Seq<Seq<Seq<char>>> {
    rows.map_values(|r: RowCsv| r@)
}

/// A time `HH:MM:SS` at `p`.
pub open spec fn time_at(s: Seq<char>, p: int) -> bool {
    &&& 0 <= p
    &&& p + 8 <= s.len()
    &&& run_len(s, p, CharClass::Digit) >= 2
    &&& s[p + 2] == ':'
    &&& run_len(s, p + 3, CharClass::Digit) >= 2
    &&& s[p + 5] == ':'
    &&& run_len(s, p + 6, CharClass::Digit) >= 2
}

/// The first time `HH:MM:SS` in `s` from `p` on.
pub open spec fn time_from(s: Seq<char>, p: int) -> Option<Seq<char>>
    decreases s.len() - p,
{
    if p < 0 || p >= s.len() {
        None
    } else if time_at(s, p) {
        Some(s.subrange(p, p + 8))
    } else {
        time_from(s, p + 1)
    }
}

/// A date `DD.MM.YYYY` at `p`; each separator is any character but a line
/// break.
pub open spec fn date_at(s: Seq<char>, p: int) -> bool {
    &&& 0 <= p
    &&& p + 10 <= s.len()
    &&& run_len(s, p, CharClass::Digit) >= 2
    &&& s[p + 2] != '\n'
    &&& run_len(s, p + 3, CharClass::Digit) >= 2
    &&& s[p + 5] != '\n'
    &&& run_len(s, p + 6, CharClass::Digit) >= 4
}

/// The first date `DD.MM.YYYY` in `s` from `p` on, as `YYYY-MM-DD`.
pub open spec fn date_from(s: Seq<char>, p: int) -> Option<Seq<char>>
    decreases s.len() - p,
{
    if p < 0 || p >= s.len() {
        None
    } else if date_at(s, p) {
        Some(s.subrange(p + 6, p + 10) + "-"@ + s.subrange(p + 3, p + 5) + "-"@ + s.subrange(p, p + 2))
    } else {
        date_from(s, p + 1)
    }
}

/// `v` with each Russian month name (genitive) replaced by its number.
pub open spec fn month_digits(v: Seq<char>) -> Seq<char> {
    replaced(
        replaced(
            replaced(
                replaced(
                    replaced(
                        replaced(
                            replaced(
                                replaced(
                                    replaced(
                                        replaced(
                                            replaced(replaced(v, "января"@, "01"@), "февраля"@, "02"@),
                                            "марта"@,
                                            "03"@,
                                        ),
                                        "апреля"@,
                                        "04"@,
                                    ),
                                    "мая"@,
                                    "05"@,
                                ),
                                "июня"@,
                                "06"@,
                            ),
                            "июля"@,
                            "07"@,
                        ),
                        "августа"@,
                        "08"@,
                    ),
                    "сентября"@,
                    "09"@,
                ),
                "октября"@,
                "10"@,
            ),
            "ноября"@,
            "11"@,
        ),
        "декабря"@,
        "12"@,
    )
}

/// The month number that `v` names, when the replacement leaves exactly
/// two bytes of UTF-8.
pub open spec fn month_number(v: Seq<char>) -> Option<Seq<char>> {
    if utf8_size(month_digits(v)) == 2 {
        Some(month_digits(v))
    } else {
        None
    }
}

/// `v` with the Russian names of the rouble, the US dollar and the euro
/// replaced by their codes.
pub open spec fn currency_codes(v: Seq<char>) -> Seq<char> {
    replaced(replaced(replaced(v, "Российский рубль"@, "RUB"@), "Доллар США"@, "USD"@), "Евро"@, "EUR"@)
}

/// The currency code that `v` names, when the replacement leaves exactly
/// three bytes of UTF-8.
pub open spec fn currency_code(v: Seq<char>) -> Option<Seq<char>> {
    if utf8_size(currency_codes(v)) == 3 {
        Some(currency_codes(v))
    } else {
        None
    }
}

/// The Russian month name (genitive) that occurs at `q`, if any.
pub open spec fn month_at(s: Seq<char>, q: int) -> Option<Seq<char>> {
    if occurs_at(s, "января"@, q) {
        Some("января"@)
    } else if occurs_at(s, "февраля"@, q) {
        Some("февраля"@)
    } else if occurs_at(s, "марта"@, q) {
        Some("марта"@)
    } else if occurs_at(s, "апреля"@, q) {
        Some("апреля"@)
    } else if occurs_at(s, "мая"@, q) {
        Some("мая"@)
    } else if occurs_at(s, "июня"@, q) {
        Some("июня"@)
    } else if occurs_at(s, "июля"@, q) {
        Some("июля"@)
    } else if occurs_at(s, "августа"@, q) {
        Some("августа"@)
    } else if occurs_at(s, "сентября"@, q) {
        Some("сентября"@)
    } else if occurs_at(s, "октября"@, q) {
        Some("октября"@)
    } else if occurs_at(s, "ноября"@, q) {
        Some("ноября"@)
    } else if occurs_at(s, "декабря"@, q) {
        Some("декабря"@)
    } else {
        None
    }
}

/// A date `DD month YYYY` at `p`, the month a Russian name; each separator
/// is any character but a line break.
pub open spec fn rus_date_at(s: Seq<char>, p: int) -> bool {
    &&& 0 <= p
    &&& p + 3 <= s.len()
    &&& run_len(s, p, CharClass::Digit) >= 2
    &&& s[p + 2] != '\n'
    &&& month_at(s, p + 3) is Some
    &&& p + 3 + (month_at(s, p + 3)->0).len() < s.len()
    &&& s[p + 3 + (month_at(s, p + 3)->0).len()] != '\n'
    &&& run_len(s, p + 4 + (month_at(s, p + 3)->0).len(), CharClass::Digit) >= 4
}

/// The first Russian date in `s` from `p` on, as `YYYY-MM-DD`.
pub open spec fn rus_date_from(s: Seq<char>, p: int) -> Option<Seq<char>>
    decreases s.len() - p,
{
    if p < 0 || p >= s.len() {
        None
    } else if rus_date_at(s, p) {
        let m = month_at(s, p + 3)->0;
        let y = p + 4 + m.len();
        Some(
            s.subrange(y, y + 4) + "-"@ + match month_number(m) {
                Some(d) => d,
                None => seq![],
            } + "-"@ + s.subrange(p, p + 2),
        )
    } else {
        rus_date_from(s, p + 1)
    }
}

/// A bank agent `digits name, rest` at `p`: the BIC, a space, a name of
/// word characters and spaces, a comma and a space, then at least one
/// character that is not a line break.
pub open spec fn agent_at(s: Seq<char>, p: int) -> bool {
    let d = run_len(s, p, CharClass::Digit);
    let e = p + d + 1 + run_len(s, p + d + 1, CharClass::Name);
    &&& 0 <= p
    &&& d >= 1
    &&& p + d < s.len()
    &&& s[p + d] == ' '
    &&& run_len(s, p + d + 1, CharClass::Name) >= 1
    &&& e + 2 < s.len()
    &&& s[e] == ','
    &&& s[e + 1] == ' '
    &&& s[e + 2] != '\n'
}

/// The first bank agent in `s` from `p` on: its BIC and its name.
pub open spec fn agent_from(s: Seq<char>, p: int) -> Option<(Seq<char>, Seq<char>)>
    decreases s.len() - p,
{
    if p < 0 || p >= s.len() {
        None
    } else if agent_at(s, p) {
        let d = run_len(s, p, CharClass::Digit);
        let e = p + d + 1 + run_len(s, p + d + 1, CharClass::Name);
        Some((s.subrange(p, p + d), s.subrange(p + d + 1, e)))
    } else {
        agent_from(s, p + 1)
    }
}

/// What reading a bank agent cell changes in a transaction detail: the
/// BIC and name of the debtor's agent.
pub open spec fn agent_read(a: TxDtlsAttribute, b: TxDtlsAttribute, s: Seq<char>) -> bool {
    match agent_from(s, 0) {
        Some(x) => {
            &&& b.rltd_agts.dbtr_agt.fin_instn_id.bic@ == x.0
            &&& b.rltd_agts.dbtr_agt.fin_instn_id.nm@ == x.1
            &&& b.rltd_agts.dbtr_agt.fin_instn_id.pstl_adr == a.rltd_agts.dbtr_agt.fin_instn_id.pstl_adr
            &&& b.rltd_agts.cdtr_agt == a.rltd_agts.cdtr_agt
            &&& b.refs == a.refs
            &&& b.amt_dtls == a.amt_dtls
            &&& b.bk_tx_cd == a.bk_tx_cd
            &&& b.rltd_pties == a.rltd_pties
            &&& b.rmt_inf == a.rmt_inf
            &&& b.rltd_dts == a.rltd_dts
            &&& b.addtl_tx_inf == a.addtl_tx_inf
        },
        None => b == a,
    }
}

/// The three lines of a cell `account\nid\nname`, when it has exactly
/// three.
pub open spec fn three_lines(s: Seq<char>) -> Option<(Seq<char>, Seq<char>, Seq<char>)> {
    let i1 = index_from(s, '\n', 0);
    let i2 = index_from(s, '\n', i1 + 1);
    if i1 < s.len() && i2 < s.len() && index_from(s, '\n', i2 + 1) == s.len() {
        Some((s.subrange(0, i1), s.subrange(i1 + 1, i2), s.subrange(i2 + 1, s.len() as int)))
    } else {
        None
    }
}

pub open spec fn strings_of(v: Vec<String>) -> Seq<Seq<char>> {
    v@.map_values(|x: String| x@)
}

/// The transaction detail that a CSV entry row gives: reference `1`, the
/// debtor from column `e`, the creditor from column `i`, the debtor's
/// agent from column `r` and the purpose from column `u`.
pub open spec fn csv_tx(t: TxDtlsAttribute, row: RowCsv) -> bool {
    &&& t.refs.end_to_end_id@ == "1"@
    &&& t.refs.pmt_inf_id@.len() == 0
    &&& t.refs.instr_id@.len() == 0
    &&& t.refs.tx_id@.len() == 0
    &&& t.refs.prtry.is_blank()
    &&& t.amt_dtls.is_blank()
    &&& t.bk_tx_cd.is_blank()
    &&& match three_lines(row.e@) {
        Some(x) => t.rltd_pties.dbtr_acct.other.id@ == x.0 && t.rltd_pties.dbtr.id.othr.id@ == x.1
            && t.rltd_pties.dbtr.nm@ == x.2,
        None => t.rltd_pties.dbtr_acct.other.id@.len() == 0 && t.rltd_pties.dbtr.id.othr.id@.len()
            == 0 && t.rltd_pties.dbtr.nm@.len() == 0,
    }
    &&& t.rltd_pties.dbtr.pstl_adr.is_blank()
    &&& t.rltd_pties.dbtr_acct.id.is_blank()
    &&& match three_lines(row.i@) {
        Some(x) => t.rltd_pties.cdtr_acct.other.id@ == x.0 && t.rltd_pties.cdtr.id.othr.id@ == x.1
            && t.rltd_pties.cdtr.nm@ == x.2,
        None => t.rltd_pties.cdtr_acct.other.id@.len() == 0 && t.rltd_pties.cdtr.id.othr.id@.len()
            == 0 && t.rltd_pties.cdtr.nm@.len() == 0,
    }
    &&& t.rltd_pties.cdtr.pstl_adr.is_blank()
    &&& t.rltd_pties.cdtr_acct.id.is_blank()
    &&& t.rltd_agts.cdtr_agt.is_blank()
    &&& match agent_from(row.r@, 0) {
        Some(x) => t.rltd_agts.dbtr_agt.fin_instn_id.bic@ == x.0
            && t.rltd_agts.dbtr_agt.fin_instn_id.nm@ == x.1,
        None => t.rltd_agts.dbtr_agt.fin_instn_id.bic@.len() == 0
            && t.rltd_agts.dbtr_agt.fin_instn_id.nm@.len() == 0,
    }
    &&& t.rltd_agts.dbtr_agt.fin_instn_id.pstl_adr.is_blank()
    &&& strings_of(t.rmt_inf.ustrd) == seq![row.u@]
    &&& t.rmt_inf.strd.is_blank()
    &&& t.rltd_dts.is_blank()
    &&& t.addtl_tx_inf@.len() == 0
}

/// The text of an optional value, or empty.
pub open spec fn or_empty(o: Option<Seq<char>>) -> Seq<char> {
    match o {
        Some(x) => x,
        None => seq![],
    }
}

/// The entry that a CSV entry row gives: booking and value date from
/// column `b`; a debit of column `j` when that is filled, else a credit of
/// column `n`; transaction code from `q`, issued by `issuer`; reference
/// from `o`.
pub open spec fn csv_entry(n: NtryAttribute, row: RowCsv, issuer: Seq<char>, ccy: Seq<char>) -> bool {
    &&& n.ntry_ref == 0
    &&& n.sts@.len() == 0
    &&& n.amt.ccy@ == ccy
    &&& n.val_dt.dt@ == or_empty(date_from(row.b@, 0))
    &&& n.bookg_dt.dt@ == or_empty(date_from(row.b@, 0))
    &&& if row.j@.len() == 0 {
        n.cdt_dbt_ind@ == "CRDT"@ && n.amt.amt@ == row.n@
    } else {
        n.cdt_dbt_ind@ == "DBIT"@ && n.amt.amt@ == row.j@
    }
    &&& n.bk_tx_cd.prtry.cd@ == row.q@
    &&& n.bk_tx_cd.prtry.issr@ == issuer
    &&& n.bk_tx_cd.domn.is_blank()
    &&& n.acct_svcr_ref@ == row.o@
    &&& n.addtl_inf_ind.is_blank()
    &&& n.ntry_dtls.btch.is_blank()
    &&& n.ntry_dtls.tx_dtls@.len() == 1
    &&& csv_tx(n.ntry_dtls.tx_dtls@[0], row)
}

/// How many entry rows start at `i`: rows up to the first one whose
/// column `b` is empty.
pub open spec fn entry_row_count(rows: Seq<RowCsv>, i: int) -> nat
    decreases rows.len() - i,
{
    if i < 0 || i >= rows.len() || rows[i].b@.len() == 0 {
        0
    } else {
        1 + entry_row_count(rows, i + 1)
    }
}

/// A balance of type `code` with amount `amt` in currency `ccy`.
pub open spec fn csv_balance(b: BalanceAttribute, code: Seq<char>, amt: Seq<char>, ccy: Seq<char>) -> bool {
    &&& b.tp.cd_or_prtry.cd@ == code
    &&& b.amt.amt@ == amt
    &&& b.amt.ccy@ == ccy
    &&& b.cdt_dbt_ind@.len() == 0
    &&& b.dt.is_blank()
    &&& b.cd@.len() == 0
}

/// The creation timestamp of row 3's column `b`: its date, then `T` and
/// its time when it has one.
pub open spec fn created_stamp(cell: Seq<char>) -> Seq<char> {
    match date_from(cell, 0) {
        Some(d) => d + match time_from(cell, 0) {
            Some(t) => "T"@ + t,
            None => seq![],
        },
        None => seq![],
    }
}

/// The statement that a CSV document of at least 8 rows describes. Rows
/// count from 0: row 2 holds the code issuer, row 3 the creation time, rows
/// 4 and 5 the account and its owner, row 6 the period, row 7 the currency;
/// entries start at row 11; the last four rows hold the number of entries,
/// the opening balance, the turnover sums and the closing balance.
pub open spec fn camt_from_csv(st: BkToCstmrStmt, rows: Seq<RowCsv>) -> bool {
    let n = rows.len() - 4;
    let ccy = or_empty(currency_code(rows[7].c@));
    &&& st.grp_hdr.msg_id@.len() == 0
    &&& st.grp_hdr.cre_dt_tm@ == created_stamp(rows[3].b@)
    &&& st.stmt.id@.len() == 0
    &&& st.stmt.elctrnc_seq_nb@.len() == 0
    &&& st.stmt.lgl_seq_nb@.len() == 0
    &&& st.stmt.cre_dt_tm@.len() == 0
    &&& st.stmt.fr_to_dt.fr_dt_tm@ == match rus_date_from(rows[6].c@, 0) {
        Some(d) => d + "T00:00:00"@,
        None => seq![],
    }
    &&& st.stmt.fr_to_dt.to_dt_tm@ == match rus_date_from(rows[6].p@, 0) {
        Some(d) => d + "T23:59:59"@,
        None => seq![],
    }
    &&& st.stmt.acct.id.iban@.len() == 0
    &&& st.stmt.acct.id.othr.id@ == rows[4].m@
    &&& st.stmt.acct.id.othr.schme_nm.is_blank()
    &&& st.stmt.acct.ccy@ == ccy
    &&& st.stmt.acct.nm@.len() == 0
    &&& st.stmt.acct.ownr.nm@ == rows[5].m@
    &&& st.stmt.acct.ownr.pstl_adr.is_blank()
    &&& st.stmt.acct.ownr.bldg_nb == 0
    &&& st.stmt.acct.ownr.pst_cd == 0
    &&& st.stmt.acct.ownr.twn_nm@.len() == 0
    &&& st.stmt.acct.ownr.ctry@.len() == 0
    &&& st.stmt.acct.ownr.id.is_blank()
    &&& st.stmt.acct.svcr.is_blank()
    &&& st.stmt.ntry@.len() == entry_row_count(rows, 11)
    &&& forall|k: int|
        0 <= k < st.stmt.ntry@.len() ==> csv_entry(
            #[trigger] st.stmt.ntry@[k],
            rows[11 + k],
            rows[2].b@,
            ccy,
        )
    &&& st.stmt.bal@.len() == 2
    &&& csv_balance(st.stmt.bal@[0], "OPBD"@, rows[n + 1].h@, ccy)
    &&& csv_balance(st.stmt.bal@[1], "CLBD"@, rows[n + 3].l@, ccy)
    &&& st.stmt.txs_summry.ttl_ntries.nb_of_ntries@ == rows[n].l@
    &&& st.stmt.txs_summry.ttl_ntries.ttl_net_ntry_amt@.len() == 0
    &&& st.stmt.txs_summry.ttl_ntries.cdt_dbt_ind@.len() == 0
    &&& st.stmt.txs_summry.ttl_dbt_ntries.sum@ == rows[n + 2].h@
    &&& st.stmt.txs_summry.ttl_dbt_ntries.nb_of_ntries == 0
    &&& st.stmt.txs_summry.ttl_cdt_ntries.sum@ == rows[n + 2].l@
    &&& st.stmt.txs_summry.ttl_cdt_ntries.nb_of_ntries == 0
}

/// Each line followed by a comma.
pub open spec fn comma_joined(us: Seq<Seq<char>>) -> Seq<char>
    decreases us.len(),
{
    if us.len() == 0 {
        seq![]
    } else {
        comma_joined(us.drop_last()) + us.last() + ","@
    }
}

/// A counterparty cell: account, id and name on three lines.
pub open spec fn party_cell(acct: Seq<char>, id: Seq<char>, nm: Seq<char>) -> Seq<char> {
    acct + "\n"@ + id + "\n"@ + nm
}

/// The CSV row of an entry: booking date in `b` (see `csv_date`); the amount in `n` for a
/// credit or in `j` for a debit; code in `q`, reference in `o`; from the
/// first transaction detail, the counterparties in `e` and `i`, the
/// debtor's agent in `r` and the purpose lines in `u`.
pub open spec fn entry_row(n: NtryAttribute) -> Seq<Seq<char>> {
    let base = blank_row().update(1, csv_date(n.bookg_dt.dt@));
    let with_amt = if n.cdt_dbt_ind@ == "CRDT"@ {
        base.update(13, n.amt.amt@)
    } else if n.cdt_dbt_ind@ == "DBIT"@ {
        base.update(9, n.amt.amt@)
    } else {
        base
    };
    let coded = with_amt.update(16, n.bk_tx_cd.prtry.cd@).update(14, n.acct_svcr_ref@);
    if n.ntry_dtls.tx_dtls@.len() > 0 {
        let t = n.ntry_dtls.tx_dtls@[0];
        coded.update(
            4,
            party_cell(t.rltd_pties.dbtr_acct.other.id@, t.rltd_pties.dbtr.id.othr.id@, t.rltd_pties.dbtr.nm@),
        ).update(
            8,
            party_cell(t.rltd_pties.cdtr_acct.other.id@, t.rltd_pties.cdtr.id.othr.id@, t.rltd_pties.cdtr.nm@),
        ).update(
            17,
            "БИК "@ + t.rltd_agts.dbtr_agt.fin_instn_id.bic@ + ", "@ + t.rltd_agts.dbtr_agt.fin_instn_id.nm@,
        ).update(20, comma_joined(strings_of(t.rmt_inf.ustrd)))
    } else {
        coded
    }
}

pub open spec fn entry_rows(ns: Seq<NtryAttribute>) -> Seq<Seq<Seq<char>>>
    decreases ns.len(),
{
    if ns.len() == 0 {
        seq![]
    } else {
        entry_rows(ns.drop_last()).push(entry_row(ns.last()))
    }
}

/// The rows of a balance: an opening balance (`OPBD`) with the turnover
/// sums of `st`, or a closing balance (`CLBD`); none for other types.
pub open spec fn balance_rows(b: BalanceAttribute, st: BkToCstmrStmt) -> Seq<Seq<Seq<char>>> {
    if b.tp.cd_or_prtry.cd@ == "OPBD"@ {
        seq![
            blank_row().update(1, "Входящий остаток"@).update(7, b.amt.amt@),
            blank_row().update(1, "Итого оборотов"@).update(7, st.stmt.txs_summry.ttl_dbt_ntries.sum@).update(
                11,
                st.stmt.txs_summry.ttl_cdt_ntries.sum@,
            ),
        ]
    } else if b.tp.cd_or_prtry.cd@ == "CLBD"@ {
        seq![blank_row().update(1, "Исходящий остаток"@).update(11, b.amt.amt@)]
    } else {
        seq![]
    }
}

pub open spec fn balances_rows(bs: Seq<BalanceAttribute>, st: BkToCstmrStmt) -> Seq<Seq<Seq<char>>>
    decreases bs.len(),
{
    if bs.len() == 0 {
        seq![]
    } else {
        balances_rows(bs.drop_last(), st) + balance_rows(bs.last(), st)
    }
}

/// The eleven header rows: title, the code issuer of the first entry,
/// creation time `stamp`, account, owner, period, currency, two rows of
/// column labels and an empty row. They put each value where reading looks
/// for it, so that the entries start at row 11.
pub open spec fn head_rows(st: BkToCstmrStmt, stamp: Seq<char>) -> Seq<Seq<Seq<char>>> {
    seq![
        blank_row().update(1, "Выписка по лицевому счету"@),
        blank_row(),
        blank_row().update(1, first_issuer(st)),
        blank_row().update(1, "Дата формирования выписки: "@ + stamp),
        blank_row().update(1, "Лицевой счет"@).update(12, st.stmt.acct.id.othr.id@),
        blank_row().update(1, "Владелец"@).update(12, st.stmt.acct.ownr.nm@),
        blank_row().update(2, "За период с "@ + st.stmt.fr_to_dt.fr_dt_tm@).update(14, "по"@).update(
            15,
            st.stmt.fr_to_dt.to_dt_tm@,
        ),
        blank_row().update(2, st.stmt.acct.ccy@),
        blank_row().update(1, "Дата проводки"@).update(4, "Счет"@).update(9, "Сумма по дебету"@).update(
            13,
            "Сумма по кредиту"@,
        ).update(14, "№ документа"@).update(16, "ВО"@).update(17, "Банк (БИК и наименование)"@).update(
            20,
            "Назначение платежа"@,
        ),
        blank_row().update(4, "Дебет"@).update(8, "Кредит"@),
        blank_row(),
    ]
}

/// The code issuer of the first entry, or empty.
pub open spec fn first_issuer(st: BkToCstmrStmt) -> Seq<char> {
    if st.stmt.ntry@.len() > 0 {
        st.stmt.ntry@[0].bk_tx_cd.prtry.issr@
    } else {
        seq![]
    }
}

/// Whether `d` starts with a date `YYYY-MM-DD`.
pub open spec fn iso_date(d: Seq<char>) -> bool {
    &&& d.len() >= 10
    &&& run_len(d, 0, CharClass::Digit) >= 4
    &&& d[4] == '-'
    &&& run_len(d, 5, CharClass::Digit) >= 2
    &&& d[7] == '-'
    &&& run_len(d, 8, CharClass::Digit) >= 2
}

/// A booking date as column `b` of an entry row: `DD.MM.YYYY` for a date
/// `YYYY-MM-DD`, `-` for no date (column `b` of an entry is never empty),
/// any other text as it stands.
pub open spec fn csv_date(d: Seq<char>) -> Seq<char> {
    if d.len() == 0 {
        "-"@
    } else if iso_date(d) {
        d.subrange(8, 10) + "."@ + d.subrange(5, 7) + "."@ + d.subrange(0, 4)
    } else {
        d
    }
}

/// The rows after the entries: an empty row that ends them, column
/// labels, then the number of entries.
pub open spec fn summary_rows(st: BkToCstmrStmt) -> Seq<Seq<Seq<char>>> {
    seq![
        blank_row(),
        blank_row().update(1, "б/с"@).update(7, "Дебет"@).update(11, "Кредит"@).update(19, "Всего"@),
        blank_row().update(1, "Количество операций"@).update(11, st.stmt.txs_summry.ttl_ntries.nb_of_ntries@),
    ]
}

/// The CSV rows of a statement, created at `stamp`.
pub open spec fn csv_rows(st: BkToCstmrStmt, stamp: Seq<char>) -> Seq<Seq<Seq<char>>> {
    head_rows(st, stamp) + entry_rows(st.stmt.ntry@) + summary_rows(st) + balances_rows(st.stmt.bal@, st)
}

/// The rows of the entries, one per entry, in order.
proof fn lemma_entry_rows(ns: Seq<NtryAttribute>)
    ensures
        entry_rows(ns).len() == ns.len(),
        forall|k: int| 0 <= k < ns.len() ==> #[trigger] entry_rows(ns)[k] == entry_row(ns[k]),
    decreases ns.len(),
{
    if ns.len() > 0 {
        lemma_entry_rows(ns.drop_last());
        assert forall|k: int| 0 <= k < ns.len() implies #[trigger] entry_rows(ns)[k] == entry_row(
            ns[k],
        ) by {
            if k < ns.len() - 1 {
                assert(ns.drop_last()[k] == ns[k]);
            }
        }
    }
}

/// Rows `i` up to `e` have column `b` filled and row `e` has it empty.
proof fn lemma_entry_count(rows: Seq<RowCsv>, i: int, e: int)
    requires
        0 <= i <= e < rows.len(),
        forall|j: int| i <= j < e ==> (#[trigger] rows[j]).b@.len() > 0,
        rows[e].b@.len() == 0,
    ensures
        entry_row_count(rows, i) == e - i,
    decreases e - i,
{
    if i < e {
        lemma_entry_count(rows, i + 1, e);
    }
}

/// Writing a statement that was read from CSV, and reading the rows back,
/// keeps its entries (their number, amounts and credit/debit indicators),
/// its account and its owner.
pub proof fn law_csv_round_trip(
    rows: Seq<RowCsv>,
    a: BkToCstmrStmt,
    stamp: Seq<char>,
    written: Seq<RowCsv>,
    b: BkToCstmrStmt,
)
    requires
        rows.len() >= 8,
        camt_from_csv(a, rows),
        rows_view(written) == csv_rows(a, stamp),
        camt_from_csv(b, written),
    ensures
        b.stmt.ntry@.len() == a.stmt.ntry@.len(),
        forall|k: int|
            0 <= k < a.stmt.ntry@.len() ==> (#[trigger] b.stmt.ntry@[k]).amt.amt@
                == a.stmt.ntry@[k].amt.amt@ && b.stmt.ntry@[k].cdt_dbt_ind@
                == a.stmt.ntry@[k].cdt_dbt_ind@,
        b.stmt.acct.id.othr.id@ == a.stmt.acct.id.othr.id@,
        b.stmt.acct.ownr.nm@ == a.stmt.acct.ownr.nm@,
{
    reveal_strlit("CRDT");
    reveal_strlit("DBIT");
    reveal_strlit("-");
    let ns = a.stmt.ntry@;
    let n = ns.len() as int;
    let view = rows_view(written);
    lemma_entry_rows(ns);
    let head = head_rows(a, stamp);
    let cat1 = head + entry_rows(ns);
    let cat2 = cat1 + summary_rows(a);
    let full = cat2 + balances_rows(a.stmt.bal@, a);
    assert(head.len() == 11);
    assert(summary_rows(a).len() == 3);
    assert(csv_rows(a, stamp) == full);
    assert(view.len() == written.len());
    assert(written.len() >= 11 + n + 3);
    assert forall|i: int| 0 <= i < written.len() implies #[trigger] view[i] == written[i]@ by {}
    assert forall|i: int| 0 <= i < cat2.len() implies #[trigger] full[i] == cat2[i] by {}
    assert forall|i: int| 0 <= i < cat1.len() implies #[trigger] cat2[i] == cat1[i] by {}
    assert forall|i: int| 0 <= i < 11 implies #[trigger] cat1[i] == head[i] by {}
    assert forall|i: int| 11 <= i < 11 + n implies #[trigger] cat1[i] == entry_rows(ns)[i - 11] by {}
    assert(cat2[11 + n] == summary_rows(a)[0]);
    assert(written[4]@ == full[4]);
    assert(written[5]@ == full[5]);
    assert(written[11 + n]@ == full[11 + n]);
    assert forall|j: int| 11 <= j < 11 + n implies #[trigger] written[j]@ == entry_row(ns[j - 11]) by {
        assert(written[j]@ == full[j]);
    }
    assert(written[4]@ == head[4]);
    assert(written[5]@ == head[5]);
    assert(written[4].m@ == written[4]@[12]);
    assert(written[5].m@ == written[5]@[12]);
    assert(written[11 + n]@ == summary_rows(a)[0]);
    assert(written[11 + n].b@ == written[11 + n]@[1]);
    assert forall|j: int| 11 <= j < 11 + n implies (#[trigger] written[j]).b@.len() > 0 by {
        assert(written[j]@ == entry_row(ns[j - 11]));
        assert(written[j].b@ == written[j]@[1]);
        let d = ns[j - 11].bookg_dt.dt@;
        if d.len() == 0 {
            assert("-"@.len() == 1);
        } else if iso_date(d) {
        }
    }
    lemma_entry_count(written, 11, 11 + n);
    assert forall|k: int| 0 <= k < n implies (#[trigger] b.stmt.ntry@[k]).amt.amt@
        == ns[k].amt.amt@ && b.stmt.ntry@[k].cdt_dbt_ind@ == ns[k].cdt_dbt_ind@ by {
        let w = written[11 + k];
        assert(w@ == entry_row(ns[k]));
        assert(w.j@ == w@[9]);
        assert(w.n@ == w@[13]);
        assert(csv_entry(ns[k], rows[11 + k], rows[2].b@, or_empty(currency_code(rows[7].c@))));
        assert(csv_entry(b.stmt.ntry@[k], w, written[2].b@, or_empty(currency_code(written[7].c@))));
        if rows[11 + k].j@.len() == 0 {
            assert(ns[k].cdt_dbt_ind@ == "CRDT"@);
            assert(w@[9] == Seq::<char>::empty());
        } else {
            assert(ns[k].cdt_dbt_ind@ == "DBIT"@);
            assert("DBIT"@ != "CRDT"@) by {
                assert("DBIT"@[0] != "CRDT"@[0]);
            }
        }
    }
}

impl DocumentCsv {
    /// An empty document.
    pub fn new() -> (r: Self)
        ensures
            r.rows@.len() == 0,
    {
        DocumentCsv { rows: Vec::new() }
    }

    /// The first time `HH:MM:SS` in `val`.
    pub fn extract_time(val: &str) -> (r: Option<String>)
        ensures
            opt_view(r) == time_from(val@, 0),
    {
        let s = chars_of(val);
        let mut p: usize = 0;
        while p < s.len()
            invariant
                s@ == val@,
                time_from(s@, p as int) == time_from(s@, 0),
            decreases s.len() - p,
        {
            if s.len() - p >= 8 && run_at(&s, p, CharClass::Digit) >= 2 && s[p + 2] == ':' && run_at(
                &s,
                p + 3,
                CharClass::Digit,
            ) >= 2 && s[p + 5] == ':' && run_at(&s, p + 6, CharClass::Digit) >= 2 {
                return Some(string_range(&s, p, p + 8));
            }
            p = p + 1;
        }
        None
    }

    /// The first date `DD.MM.YYYY` in `val`, as `YYYY-MM-DD`.
    pub fn extract_date(val: &str) -> (r: Option<String>)
        ensures
            opt_view(r) == date_from(val@, 0),
    {
        let s = chars_of(val);
        let mut p: usize = 0;
        while p < s.len()
            invariant
                s@ == val@,
                date_from(s@, p as int) == date_from(s@, 0),
            decreases s.len() - p,
        {
            if s.len() - p >= 10 && run_at(&s, p, CharClass::Digit) >= 2 && s[p + 2] != '\n' && run_at(
                &s,
                p + 3,
                CharClass::Digit,
            ) >= 2 && s[p + 5] != '\n' && run_at(&s, p + 6, CharClass::Digit) >= 4 {
                let mut dt = string_range(&s, p + 6, p + 10);
                dt.append("-");
                dt.append(string_range(&s, p + 3, p + 5).as_str());
                dt.append("-");
                dt.append(string_range(&s, p, p + 2).as_str());
                return Some(dt);
            }
            p = p + 1;
        }
        None
    }

    /// The number of the Russian month that `val` names, as two digits.
    pub fn convert_ru_month_to_number(val: &str) -> (r: Option<String>)
        ensures
            opt_view(r) == month_number(val@),
    {
        let m = replace_all(val, "января", "01");
        let m = replace_all(m.as_str(), "февраля", "02");
        let m = replace_all(m.as_str(), "марта", "03");
        let m = replace_all(m.as_str(), "апреля", "04");
        let m = replace_all(m.as_str(), "мая", "05");
        let m = replace_all(m.as_str(), "июня", "06");
        let m = replace_all(m.as_str(), "июля", "07");
        let m = replace_all(m.as_str(), "августа", "08");
        let m = replace_all(m.as_str(), "сентября", "09");
        let m = replace_all(m.as_str(), "октября", "10");
        let m = replace_all(m.as_str(), "ноября", "11");
        let m = replace_all(m.as_str(), "декабря", "12");
        if has_byte_len(m.as_str(), 2) {
            Some(m)
        } else {
            None
        }
    }

    /// The first Russian date `DD month YYYY` in `val`, as `YYYY-MM-DD`.
    pub fn extract_date_rus(val: &str) -> (r: Option<String>)
        ensures
            opt_view(r) == rus_date_from(val@, 0),
    {
        let s = chars_of(val);
        let mut p: usize = 0;
        while p < s.len()
            invariant
                s@ == val@,
                rus_date_from(s@, p as int) == rus_date_from(s@, 0),
            decreases s.len() - p,
        {
            if s.len() - p >= 3 && run_at(&s, p, CharClass::Digit) >= 2 && s[p + 2] != '\n' {
                if let Some(month) = month_name_at(&s, p + 3) {
                    let m = chars_of(month.as_str());
                    if p + 3 + m.len() < s.len() && s[p + 3 + m.len()] != '\n' && run_at(
                        &s,
                        p + 4 + m.len(),
                        CharClass::Digit,
                    ) >= 4 {
                        let y = p + 4 + m.len();
                        let mut dt = string_range(&s, y, y + 4);
                        dt.append("-");
                        if let Some(number) = DocumentCsv::convert_ru_month_to_number(month.as_str()) {
                            dt.append(number.as_str());
                        }
                        dt.append("-");
                        dt.append(string_range(&s, p, p + 2).as_str());
                        assert(dt@ =~= rus_date_from(s@, p as int)->0);
                        return Some(dt);
                    }
                }
            }
            p = p + 1;
        }
        None
    }

    /// Reads the BIC and name of the debtor's agent out of a bank cell
    /// `... BIC name, rest`.
    pub fn extract_crd_agent(val: &str, ntry_det: &mut TxDtlsAttribute)
        ensures
            agent_read(*old(ntry_det), *final(ntry_det), val@),
    {
        let s = chars_of(val);
        let mut p: usize = 0;
        while p < s.len()
            invariant
                s@ == val@,
                *ntry_det == *old(ntry_det),
                agent_from(s@, p as int) == agent_from(s@, 0),
            decreases s.len() - p,
        {
            let d = run_at(&s, p, CharClass::Digit);
            if d >= 1 && p + d < s.len() && s[p + d] == ' ' {
                let w = run_at(&s, p + d + 1, CharClass::Name);
                let e = p + d + 1 + w;
                if w >= 1 && e < s.len() && s.len() - e > 2 && s[e] == ',' && s[e + 1] == ' ' && s[e + 2] != '\n' {
                    ntry_det.rltd_agts.dbtr_agt.fin_instn_id.bic = string_range(&s, p, p + d);
                    ntry_det.rltd_agts.dbtr_agt.fin_instn_id.nm = string_range(&s, p + d + 1, e);
                    return;
                }
            }
            p = p + 1;
        }
    }

    /// The currency code that a Russian currency name stands for.
    pub fn extract_ccy(val: &str) -> (r: Option<String>)
        ensures
            opt_view(r) == currency_code(val@),
    {
        let c = replace_all(val, "Российский рубль", "RUB");
        let c = replace_all(c.as_str(), "Доллар США", "USD");
        let c = replace_all(c.as_str(), "Евро", "EUR");
        if has_byte_len(c.as_str(), 3) {
            Some(c)
        } else {
            None
        }
    }

    /// The statement that the document's rows describe. A document of fewer
    /// than 8 rows is a format error.
    pub fn parse_to_camt(self) -> (r: Result<DocumentCamt053, ParserError>)
        ensures
            r is Err <==> self.rows@.len() < 8,
            r matches Err(e) ==> e matches ParserError::BadInputFormatFile(_),
            r matches Ok(doc) ==> doc.bk_to_cstmr_stmt@.len() == 1 && camt_from_csv(
                doc.bk_to_cstmr_stmt@[0],
                self.rows@,
            ),
    {
        let rows = &self.rows;
        if rows.len() < 8 {
            return Err(ParserError::BadInputFormatFile(String::from_str("Bad input csv file")));
        }
        let mut st = BkToCstmrStmt::default();
        if let Some(date_create) = DocumentCsv::extract_date(rows[3].b.as_str()) {
            st.grp_hdr.cre_dt_tm = date_create;
            if let Some(time_create) = DocumentCsv::extract_time(rows[3].b.as_str()) {
                st.grp_hdr.cre_dt_tm.append("T");
                st.grp_hdr.cre_dt_tm.append(time_create.as_str());
            }
        }
        assert(st.grp_hdr.cre_dt_tm@ =~= created_stamp(rows@[3].b@));
        st.stmt.acct.id.othr.id = rows[4].m.clone();
        st.stmt.acct.ownr.nm = rows[5].m.clone();
        if let Some(dt) = DocumentCsv::extract_date_rus(rows[6].c.as_str()) {
            let mut from = dt;
            from.append("T00:00:00");
            st.stmt.fr_to_dt.fr_dt_tm = from;
        }
        if let Some(dt) = DocumentCsv::extract_date_rus(rows[6].p.as_str()) {
            let mut to = dt;
            to.append("T23:59:59");
            st.stmt.fr_to_dt.to_dt_tm = to;
        }
        assert(st.stmt.fr_to_dt.fr_dt_tm@ =~= match rus_date_from(rows@[6].c@, 0) {
            Some(d) => d + "T00:00:00"@,
            None => seq![],
        });
        assert(st.stmt.fr_to_dt.to_dt_tm@ =~= match rus_date_from(rows@[6].p@, 0) {
            Some(d) => d + "T23:59:59"@,
            None => seq![],
        });
        if let Some(ccy) = DocumentCsv::extract_ccy(rows[7].c.as_str()) {
            st.stmt.acct.ccy = ccy;
        }
        assert(st.stmt.acct.ccy@ =~= or_empty(currency_code(rows@[7].c@)));
        st.stmt.ntry = csv_entries(rows, &rows[2].b, &st.stmt.acct.ccy);
        let n = rows.len() - 4;
        let mut opening = BalanceAttribute::default();
        opening.amt.ccy = st.stmt.acct.ccy.clone();
        opening.tp.cd_or_prtry.cd = String::from_str("OPBD");
        opening.amt.amt = rows[n + 1].h.clone();
        st.stmt.bal.push(opening);
        st.stmt.txs_summry.ttl_dbt_ntries.sum = rows[n + 2].h.clone();
        st.stmt.txs_summry.ttl_cdt_ntries.sum = rows[n + 2].l.clone();
        st.stmt.txs_summry.ttl_ntries.nb_of_ntries = rows[n].l.clone();
        let mut closing = BalanceAttribute::default();
        closing.amt.ccy = st.stmt.acct.ccy.clone();
        closing.tp.cd_or_prtry.cd = String::from_str("CLBD");
        closing.amt.amt = rows[n + 3].l.clone();
        st.stmt.bal.push(closing);
        let mut camt = DocumentCamt053::new();
        camt.bk_to_cstmr_stmt.push(st);
        Ok(camt)
    }

    /// The rows of a document read as records: the first 21 fields of each
    /// record; an error when a record has fewer.
    pub fn from_records(records: Vec<Vec<String>>) -> (r: Result<DocumentCsv, ParserError>)
        ensures
            r is Ok <==> all_full(records_view(records)),
            r matches Ok(d) ==> rows_view(d.rows@) == first_columns(records_view(records)),
            r matches Err(e) ==> e matches ParserError::BadCsvDeserializeError(_),
    {
        let mut csv_document = DocumentCsv::new();
        let mut k: usize = 0;
        while k < records.len()
            invariant
                k <= records@.len(),
                all_full(records_view(records).take(k as int)),
                rows_view(csv_document.rows@) == first_columns(records_view(records).take(k as int)),
            decreases records.len() - k,
        {
            assert(records_view(records)[k as int] == records@[k as int]@.map_values(|x: String| x@));
            if records[k].len() < 21 {
                assert(!all_full(records_view(records)));
                return Err(
                    ParserError::BadCsvDeserializeError(String::from_str("a row has fewer than 21 fields")),
                );
            }
            let row = row_of(&records[k]);
            let ghost before = rows_view(csv_document.rows@);
            let ghost rv = row@;
            csv_document.rows.push(row);
            assert(rows_view(csv_document.rows@) =~= before.push(rv));
            assert(records_view(records).take(k + 1) =~= records_view(records).take(k as int).push(
                records_view(records)[k as int],
            ));
            assert(first_columns(records_view(records).take(k + 1)) =~= first_columns(
                records_view(records).take(k as int),
            ).push(records_view(records)[k as int].take(21)));
            k = k + 1;
            assert(rows_view(csv_document.rows@) =~= first_columns(records_view(records).take(k as int)));
        }
        assert(records_view(records).take(k as int) =~= records_view(records));
        Ok(csv_document)
    }

    /// Reads a CSV document of 21-column rows with no header row.
    pub fn from_read(input: &[u8]) -> (r: Result<DocumentCsv, ParserError>)
        ensures
            r is Ok <==> csv_reads(input@) && all_full(csv_records_of(input@)),
            r matches Ok(d) ==> all_full(csv_records_of(input@)) && rows_view(d.rows@)
                == first_columns(csv_records_of(input@)),
            r matches Err(e) ==> e matches ParserError::BadCsvDeserializeError(_),
    {
        match read_records(input) {
            Ok(records) => DocumentCsv::from_records(records),
            Err(e) => Err(ParserError::BadCsvDeserializeError(csv_error_text(&e))),
        }
    }

    /// The rows as records of 21 fields.
    pub fn records(&self) -> (r: Vec<Vec<String>>)
        ensures
            records_view(r) == rows_view(self.rows@),
    {
        let mut r: Vec<Vec<String>> = Vec::new();
        let mut k: usize = 0;
        while k < self.rows.len()
            invariant
                k <= self.rows@.len(),
                records_view(r) == rows_view(self.rows@).take(k as int),
            decreases self.rows.len() - k,
        {
            let ghost before = records_view(r);
            let f = fields_of(&self.rows[k]);
            let ghost fv = f@.map_values(|x: String| x@);
            r.push(f);
            assert(records_view(r) =~= before.push(fv));
            assert(rows_view(self.rows@).take(k + 1) =~= rows_view(self.rows@).take(k as int).push(
                self.rows@[k as int]@,
            ));
            k = k + 1;
            assert(records_view(r) =~= rows_view(self.rows@).take(k as int));
        }
        assert(rows_view(self.rows@).take(k as int) =~= rows_view(self.rows@));
        r
    }

    /// Writes the rows as CSV with no header row, appending to `out`.
    pub fn write_to(&self, out: &mut Vec<u8>) -> (r: Result<(), ConvertError>)
        ensures
            r is Ok,
            final(out)@ == old(out)@ + csv_text_of(rows_view(self.rows@)),
    {
        let records = self.records();
        assert forall|i: int| 0 <= i < records@.len() implies (#[trigger] records@[i])@.len() == 21 by {
            assert(records_view(records).len() == records@.len());
            assert(rows_view(self.rows@).len() == self.rows@.len());
            assert(records_view(records)[i] == records@[i]@.map_values(|x: String| x@));
            assert(rows_view(self.rows@)[i] == self.rows@[i]@);
        }
        match write_records(&records) {
            Ok(mut bytes) => {
                out.append(&mut bytes);
                Ok(())
            },
            Err(e) => Err(ConvertError::WriteError(csv_error_text(&e))),
        }
    }

    /// The CSV rows of the first statement of `camt`, created at `stamp`;
    /// an error when `camt` holds no statement.
    pub fn parse_to_csv_at(camt: &DocumentCamt053, stamp: &str) -> (r: Result<DocumentCsv, ParserError>)
        ensures
            r is Ok <==> camt.bk_to_cstmr_stmt@.len() > 0,
            r matches Err(e) ==> e matches ParserError::BadCsvDeserializeError(_),
            r matches Ok(d) ==> rows_view(d.rows@) == csv_rows(camt.bk_to_cstmr_stmt@[0], stamp@),
    {
        if camt.bk_to_cstmr_stmt.len() == 0 {
            return Err(
                ParserError::BadCsvDeserializeError(
                    String::from_str("No document to convert CSV format"),
                ),
            );
        }
        let doc = &camt.bk_to_cstmr_stmt[0];
        let mut csv = DocumentCsv::new();
        assert(rows_view(csv.rows@) =~= seq![]);
        push_head(&mut csv.rows, doc, stamp);
        push_entries(&mut csv.rows, &doc.stmt.ntry);
        push_summary(&mut csv.rows, doc);
        let ghost before = rows_view(csv.rows@);
        let bs = &doc.stmt.bal;
        let mut k: usize = 0;
        assert(bs@.take(0) =~= seq![]);
        assert(before + seq![] =~= before);
        while k < bs.len()
            invariant
                k <= bs@.len(),
                rows_view(csv.rows@) == before + balances_rows(bs@.take(k as int), *doc),
            decreases bs.len() - k,
        {
            push_balance_rows(&mut csv.rows, &bs[k], doc);
            assert(bs@.take(k + 1).drop_last() =~= bs@.take(k as int));
            k = k + 1;
            assert(rows_view(csv.rows@) =~= before + balances_rows(bs@.take(k as int), *doc));
        }
        assert(bs@.take(k as int) =~= bs@);
        assert(rows_view(csv.rows@) =~= csv_rows(*doc, stamp@));
        Ok(csv)
    }

    /// The CSV rows of the first statement of `camt`, stamped with the local
    /// time now; an error when `camt` holds no statement.
    pub fn parse_to_csv(camt: &DocumentCamt053) -> (r: Result<DocumentCsv, ParserError>)
        ensures
            r is Ok <==> camt.bk_to_cstmr_stmt@.len() > 0,
            r matches Err(e) ==> e matches ParserError::BadCsvDeserializeError(_),
            r matches Ok(d) ==> exists|stamp: Seq<char>|
                rows_view(d.rows@) == #[trigger] csv_rows(camt.bk_to_cstmr_stmt@[0], stamp),
    {
        let stamp = match local_time_text("%d.%m.%Y %H:%M:%S") {
            Some(t) => t,
            None => String::new(),
        };
        DocumentCsv::parse_to_csv_at(camt, stamp.as_str())
    }
}


/// Relies on `chrono::Local::now` and `DateTime::format`: the local time
/// now, written by the strftime-style `pattern`; `None` when the pattern
/// cannot be written.
#[verifier::external_body]
fn local_time_text(pattern: &str) -> (r: Option<String>) {
    let mut text = String::new();
    match write!(text, "{}", chrono::Local::now().format(pattern)) {
        Ok(()) => Some(text),
        Err(_) => None,
    }
}

#[verifier::external_type_specification]
#[verifier::external_body]
pub struct ExCsvError(::csv::Error);

/// The records that the `csv` crate reads from `input`, each as its
/// fields.
pub uninterp spec fn csv_records_of(input: Seq<u8>) -> Seq<Seq<Seq<char>>>;

/// Whether the `csv` crate reads `input` without error.
pub uninterp spec fn csv_reads(input: Seq<u8>) -> bool;

/// The bytes that the `csv` crate writes for `records`.
pub uninterp spec fn csv_text_of(records: Seq<Seq<Seq<char>>>) -> Seq<u8>;

/// The fields of each record.
pub open spec fn records_view(v: Vec<Vec<String>>) -> Seq<Seq<Seq<char>>> {
    v@.map_values(|r: Vec<String>| r@.map_values(|x: String| x@))
}

/// Relies on `csv::Reader::records`, with no header row and records of one
/// length: the records of `input`, or the first error met.
#[verifier::external_body]
fn read_records(input: &[u8]) -> (r: Result<Vec<Vec<String>>, ::csv::Error>)
    ensures
        r is Ok <==> csv_reads(input@),
        r matches Ok(v) ==> records_view(v) == csv_records_of(input@),
{
    let mut rdr = ::csv::ReaderBuilder::new().has_headers(false).from_reader(input);
    let mut records = Vec::new();
    for record in rdr.records() {
        records.push(record?.iter().map(|f| f.to_string()).collect());
    }
    Ok(records)
}

/// Relies on `csv::Writer::write_record`, with no header row, writing into
/// memory: the CSV text of `records`, or the first error met. Writing into
/// memory fails only on records of unequal lengths.
#[verifier::external_body]
fn write_records(records: &Vec<Vec<String>>) -> (r: Result<Vec<u8>, ::csv::Error>)
    ensures
        (forall|i: int| 0 <= i < records@.len() ==> (#[trigger] records@[i])@.len() == 21) ==> r is Ok,
        r matches Ok(b) ==> b@ == csv_text_of(records_view(*records)),
{
    let mut wtr = ::csv::WriterBuilder::new().has_headers(false).from_writer(Vec::new());
    for record in records {
        wtr.write_record(record)?;
    }
    wtr.into_inner().map_err(|e| ::csv::Error::from(e.into_error()))
}

/// Relies on the `Display` text of `csv::Error`.
#[verifier::external_body]
fn csv_error_text(e: &::csv::Error) -> String {
    e.to_string()
}

/// The first 21 fields of each record.
pub open spec fn first_columns(records: Seq<Seq<Seq<char>>>) -> Seq<Seq<Seq<char>>> {
    records.map_values(|r: Seq<Seq<char>>| r.take(21))
}

/// Whether every record has at least 21 fields.
pub open spec fn all_full(records: Seq<Seq<Seq<char>>>) -> bool {
    forall|i: int| 0 <= i < records.len() ==> (#[trigger] records[i]).len() >= 21
}

/// The row of a record of at least 21 fields: its first 21.
fn row_of(rec: &Vec<String>) -> (r: RowCsv)
    requires
        rec@.len() >= 21,
    ensures
        r@ == rec@.map_values(|x: String| x@).take(21),
{
    let r = RowCsv {
        a: rec[0].clone(),
        b: rec[1].clone(),
        c: rec[2].clone(),
        d: rec[3].clone(),
        e: rec[4].clone(),
        f: rec[5].clone(),
        g: rec[6].clone(),
        h: rec[7].clone(),
        i: rec[8].clone(),
        j: rec[9].clone(),
        k: rec[10].clone(),
        l: rec[11].clone(),
        m: rec[12].clone(),
        n: rec[13].clone(),
        o: rec[14].clone(),
        p: rec[15].clone(),
        q: rec[16].clone(),
        r: rec[17].clone(),
        s: rec[18].clone(),
        t: rec[19].clone(),
        u: rec[20].clone(),
    };
    assert(r@ =~= rec@.map_values(|x: String| x@).take(21));
    r
}

/// The 21 fields of a row.
fn fields_of(row: &RowCsv) -> (r: Vec<String>)
    ensures
        r@.map_values(|x: String| x@) == row@,
{
    let mut fields: Vec<String> = Vec::new();
    fields.push(row.a.clone());
    fields.push(row.b.clone());
    fields.push(row.c.clone());
    fields.push(row.d.clone());
    fields.push(row.e.clone());
    fields.push(row.f.clone());
    fields.push(row.g.clone());
    fields.push(row.h.clone());
    fields.push(row.i.clone());
    fields.push(row.j.clone());
    fields.push(row.k.clone());
    fields.push(row.l.clone());
    fields.push(row.m.clone());
    fields.push(row.n.clone());
    fields.push(row.o.clone());
    fields.push(row.p.clone());
    fields.push(row.q.clone());
    fields.push(row.r.clone());
    fields.push(row.s.clone());
    fields.push(row.t.clone());
    fields.push(row.u.clone());
    assert(fields@.map_values(|x: String| x@) =~= row@);
    fields
}

/// Appends a row.
fn push_row(rows: &mut Vec<RowCsv>, row: RowCsv)
    ensures
        rows_view(final(rows)@) == rows_view(old(rows)@).push(row@),
{
    let ghost r = row@;
    rows.push(row);
    assert(rows_view(final(rows)@) =~= rows_view(old(rows)@).push(r));
}

/// A row whose column `b` is `label`.
fn label_row(label: &str) -> (r: RowCsv)
    ensures
        r@ == blank_row().update(1, label@),
{
    let mut row = RowCsv::new();
    row.b = String::from_str(label);
    assert(row@ =~= blank_row().update(1, label@));
    row
}

/// Three lines joined into one cell.
fn party_text(acct: &String, id: &String, nm: &String) -> (r: String)
    ensures
        r@ == party_cell(acct@, id@, nm@),
{
    let mut c = acct.clone();
    c.append("\n");
    c.append(id.as_str());
    c.append("\n");
    c.append(nm.as_str());
    c
}

/// The lines, each followed by a comma.
fn comma_text(us: &Vec<String>) -> (r: String)
    ensures
        r@ == comma_joined(strings_of(*us)),
{
    let mut out = String::new();
    let mut k: usize = 0;
    assert(strings_of(*us).take(0) =~= seq![]);
    while k < us.len()
        invariant
            k <= us@.len(),
            out@ == comma_joined(strings_of(*us).take(k as int)),
        decreases us.len() - k,
    {
        out.append(us[k].as_str());
        out.append(",");
        proof {
            let v = strings_of(*us);
            assert(v.take(k + 1).drop_last() =~= v.take(k as int));
            assert(v[k as int] == us@[k as int]@);
        }
        k = k + 1;
        assert(out@ =~= comma_joined(strings_of(*us).take(k as int)));
    }
    assert(strings_of(*us).take(k as int) =~= strings_of(*us));
    out
}

/// The CSV row of an entry.
fn entry_row_of(n: &NtryAttribute) -> (r: RowCsv)
    ensures
        r@ == entry_row(*n),
{
    let mut row = RowCsv::new();
    row.b = csv_date_text(&n.bookg_dt.dt);
    if eq_text(&n.cdt_dbt_ind, "CRDT") {
        row.n = n.amt.amt.clone();
    } else if eq_text(&n.cdt_dbt_ind, "DBIT") {
        row.j = n.amt.amt.clone();
    }
    row.q = n.bk_tx_cd.prtry.cd.clone();
    row.o = n.acct_svcr_ref.clone();
    if n.ntry_dtls.tx_dtls.len() > 0 {
        let t = &n.ntry_dtls.tx_dtls[0];
        row.e = party_text(&t.rltd_pties.dbtr_acct.other.id, &t.rltd_pties.dbtr.id.othr.id, &t.rltd_pties.dbtr.nm);
        row.i = party_text(&t.rltd_pties.cdtr_acct.other.id, &t.rltd_pties.cdtr.id.othr.id, &t.rltd_pties.cdtr.nm);
        let mut agent = String::from_str("БИК ");
        agent.append(t.rltd_agts.dbtr_agt.fin_instn_id.bic.as_str());
        agent.append(", ");
        agent.append(t.rltd_agts.dbtr_agt.fin_instn_id.nm.as_str());
        row.r = agent;
        row.u = comma_text(&t.rmt_inf.ustrd);
    }
    assert(row@ =~= entry_row(*n));
    row
}

/// Appends the header rows.
fn push_head(rows: &mut Vec<RowCsv>, st: &BkToCstmrStmt, stamp: &str)
    ensures
        rows_view(final(rows)@) == rows_view(old(rows)@) + head_rows(*st, stamp@),
{
    let row_0 = label_row("Выписка по лицевому счету");
    assert(row_0@ =~= head_rows(*st, stamp@)[0]);
    push_row(rows, row_0);
    let row_1 = RowCsv::new();
    assert(row_1@ =~= head_rows(*st, stamp@)[1]);
    push_row(rows, row_1);
    let mut row_2 = RowCsv::new();
    if st.stmt.ntry.len() > 0 {
        row_2.b = st.stmt.ntry[0].bk_tx_cd.prtry.issr.clone();
    }
    assert(row_2@ =~= head_rows(*st, stamp@)[2]);
    push_row(rows, row_2);
    let mut created = String::from_str("Дата формирования выписки: ");
    created.append(stamp);
    let mut row_3 = RowCsv::new();
    row_3.b = created;
    assert(row_3@ =~= head_rows(*st, stamp@)[3]);
    push_row(rows, row_3);
    let mut row_4 = label_row("Лицевой счет");
    row_4.m = st.stmt.acct.id.othr.id.clone();
    assert(row_4@ =~= head_rows(*st, stamp@)[4]);
    push_row(rows, row_4);
    let mut row_5 = label_row("Владелец");
    row_5.m = st.stmt.acct.ownr.nm.clone();
    assert(row_5@ =~= head_rows(*st, stamp@)[5]);
    push_row(rows, row_5);
    let mut row_6 = RowCsv::new();
    let mut period = String::from_str("За период с ");
    period.append(st.stmt.fr_to_dt.fr_dt_tm.as_str());
    row_6.c = period;
    row_6.o = String::from_str("по");
    row_6.p = st.stmt.fr_to_dt.to_dt_tm.clone();
    assert(row_6@ =~= head_rows(*st, stamp@)[6]);
    push_row(rows, row_6);
    let mut row_7 = RowCsv::new();
    row_7.c = st.stmt.acct.ccy.clone();
    assert(row_7@ =~= head_rows(*st, stamp@)[7]);
    push_row(rows, row_7);
    let mut row_8 = label_row("Дата проводки");
    row_8.e = String::from_str("Счет");
    row_8.j = String::from_str("Сумма по дебету");
    row_8.n = String::from_str("Сумма по кредиту");
    row_8.o = String::from_str("№ документа");
    row_8.q = String::from_str("ВО");
    row_8.r = String::from_str("Банк (БИК и наименование)");
    row_8.u = String::from_str("Назначение платежа");
    assert(row_8@ =~= head_rows(*st, stamp@)[8]);
    push_row(rows, row_8);
    let mut row_9 = RowCsv::new();
    row_9.e = String::from_str("Дебет");
    row_9.i = String::from_str("Кредит");
    assert(row_9@ =~= head_rows(*st, stamp@)[9]);
    push_row(rows, row_9);
    let row_10 = RowCsv::new();
    assert(row_10@ =~= head_rows(*st, stamp@)[10]);
    push_row(rows, row_10);
    assert(rows_view(final(rows)@) =~= rows_view(old(rows)@) + head_rows(*st, stamp@));
}

/// A booking date as column `b` of an entry row.
fn csv_date_text(d: &String) -> (r: String)
    ensures
        r@ == csv_date(d@),
{
    let c = chars_of(d.as_str());
    if c.len() == 0 {
        return String::from_str("-");
    }
    if c.len() >= 10 && run_at(&c, 0, CharClass::Digit) >= 4 && c[4] == '-' && run_at(
        &c,
        5,
        CharClass::Digit,
    ) >= 2 && c[7] == '-' && run_at(&c, 8, CharClass::Digit) >= 2 {
        let mut r = string_range(&c, 8, 10);
        r.append(".");
        r.append(string_range(&c, 5, 7).as_str());
        r.append(".");
        r.append(string_range(&c, 0, 4).as_str());
        return r;
    }
    d.clone()
}

/// Appends the rows of the entries.
fn push_entries(rows: &mut Vec<RowCsv>, ns: &Vec<NtryAttribute>)
    ensures
        rows_view(final(rows)@) == rows_view(old(rows)@) + entry_rows(ns@),
{
    let mut k: usize = 0;
    assert(ns@.take(0) =~= seq![]);
    assert(rows_view(old(rows)@) + seq![] =~= rows_view(old(rows)@));
    while k < ns.len()
        invariant
            k <= ns@.len(),
            rows_view(rows@) == rows_view(old(rows)@) + entry_rows(ns@.take(k as int)),
        decreases ns.len() - k,
    {
        push_row(rows, entry_row_of(&ns[k]));
        assert(ns@.take(k + 1).drop_last() =~= ns@.take(k as int));
        k = k + 1;
        assert(rows_view(rows@) =~= rows_view(old(rows)@) + entry_rows(ns@.take(k as int)));
    }
    assert(ns@.take(k as int) =~= ns@);
}

/// Appends the rows after the entries.
fn push_summary(rows: &mut Vec<RowCsv>, st: &BkToCstmrStmt)
    ensures
        rows_view(final(rows)@) == rows_view(old(rows)@) + summary_rows(*st),
{
    let end = RowCsv::new();
    assert(end@ =~= summary_rows(*st)[0]);
    push_row(rows, end);
    let mut labels = label_row("б/с");
    labels.h = String::from_str("Дебет");
    labels.l = String::from_str("Кредит");
    labels.t = String::from_str("Всего");
    assert(labels@ =~= summary_rows(*st)[1]);
    push_row(rows, labels);
    let mut count = label_row("Количество операций");
    count.l = st.stmt.txs_summry.ttl_ntries.nb_of_ntries.clone();
    assert(count@ =~= summary_rows(*st)[2]);
    push_row(rows, count);
    assert(rows_view(final(rows)@) =~= rows_view(old(rows)@) + summary_rows(*st));
}

/// Appends the rows of one balance.
fn push_balance_rows(rows: &mut Vec<RowCsv>, b: &BalanceAttribute, st: &BkToCstmrStmt)
    ensures
        rows_view(final(rows)@) == rows_view(old(rows)@) + balance_rows(*b, *st),
{
    if eq_text(&b.tp.cd_or_prtry.cd, "OPBD") {
        let mut row = label_row("Входящий остаток");
        row.h = b.amt.amt.clone();
        assert(row@ =~= balance_rows(*b, *st)[0]);
        push_row(rows, row);
        let mut row_10 = label_row("Итого оборотов");
        row_10.h = st.stmt.txs_summry.ttl_dbt_ntries.sum.clone();
        row_10.l = st.stmt.txs_summry.ttl_cdt_ntries.sum.clone();
        assert(row_10@ =~= balance_rows(*b, *st)[1]);
        push_row(rows, row_10);
    } else if eq_text(&b.tp.cd_or_prtry.cd, "CLBD") {
        let mut row = label_row("Исходящий остаток");
        row.l = b.amt.amt.clone();
        assert(row@ =~= balance_rows(*b, *st)[0]);
        push_row(rows, row);
    }
    assert(rows_view(final(rows)@) =~= rows_view(old(rows)@) + balance_rows(*b, *st));
}

/// Splits a cell `account\nid\nname` into its three lines, when it has
/// exactly three.
fn split_three(cell: &String) -> (r: Option<(String, String, String)>)
    ensures
        match r {
            Some(x) => three_lines(cell@) == Some((x.0@, x.1@, x.2@)),
            None => three_lines(cell@) is None,
        },
{
    let s = chars_of(cell.as_str());
    let i1 = find_char(&s, '\n', 0);
    if i1 >= s.len() {
        return None;
    }
    let i2 = find_char(&s, '\n', i1 + 1);
    if i2 >= s.len() {
        return None;
    }
    let i3 = find_char(&s, '\n', i2 + 1);
    if i3 != s.len() {
        return None;
    }
    Some((string_range(&s, 0, i1), string_range(&s, i1 + 1, i2), string_range(&s, i2 + 1, s.len())))
}

/// The transaction detail of a CSV entry row.
fn csv_tx_of(row: &RowCsv) -> (t: TxDtlsAttribute)
    ensures
        csv_tx(t, *row),
{
    let mut t = TxDtlsAttribute::default();
    t.refs.end_to_end_id = String::from_str("1");
    if let Some((a, b, c)) = split_three(&row.e) {
        t.rltd_pties.dbtr_acct.other.id = a;
        t.rltd_pties.dbtr.id.othr.id = b;
        t.rltd_pties.dbtr.nm = c;
    }
    if let Some((a, b, c)) = split_three(&row.i) {
        t.rltd_pties.cdtr_acct.other.id = a;
        t.rltd_pties.cdtr.id.othr.id = b;
        t.rltd_pties.cdtr.nm = c;
    }
    DocumentCsv::extract_crd_agent(row.r.as_str(), &mut t);
    t.rmt_inf.ustrd.push(row.u.clone());
    assert(strings_of(t.rmt_inf.ustrd) =~= seq![row.u@]);
    t
}

/// The entry of a CSV entry row.
fn csv_entry_of(row: &RowCsv, issuer: &String, ccy: &String) -> (n: NtryAttribute)
    ensures
        csv_entry(n, *row, issuer@, ccy@),
{
    let mut n = NtryAttribute::default();
    n.amt.ccy = ccy.clone();
    if let Some(date) = DocumentCsv::extract_date(row.b.as_str()) {
        n.val_dt.dt = date.clone();
        n.bookg_dt.dt = date;
    }
    assert(n.val_dt.dt@ =~= or_empty(date_from(row.b@, 0)));
    assert(n.bookg_dt.dt@ =~= or_empty(date_from(row.b@, 0)));
    if row.j.as_str().is_empty() {
        n.cdt_dbt_ind = String::from_str("CRDT");
        n.amt.amt = row.n.clone();
    } else {
        n.cdt_dbt_ind = String::from_str("DBIT");
        n.amt.amt = row.j.clone();
    }
    n.bk_tx_cd.prtry.cd = row.q.clone();
    n.bk_tx_cd.prtry.issr = issuer.clone();
    n.acct_svcr_ref = row.o.clone();
    n.ntry_dtls.tx_dtls.push(csv_tx_of(row));
    n
}

/// The entries of the rows from 11 on, up to the first row whose column
/// `b` is empty.
fn csv_entries(rows: &Vec<RowCsv>, issuer: &String, ccy: &String) -> (r: Vec<NtryAttribute>)
    ensures
        r@.len() == entry_row_count(rows@, 11),
        forall|k: int| 0 <= k < r@.len() ==> csv_entry(#[trigger] r@[k], rows@[11 + k], issuer@, ccy@),
{
    let mut r: Vec<NtryAttribute> = Vec::new();
    if rows.len() <= 11 {
        return r;
    }
    let mut i: usize = 11;
    while i < rows.len() && !rows[i].b.as_str().is_empty()
        invariant
            11 <= i <= rows@.len(),
            r@.len() == i - 11,
            entry_row_count(rows@, 11) == (i - 11) + entry_row_count(rows@, i as int),
            forall|k: int| 0 <= k < r@.len() ==> csv_entry(#[trigger] r@[k], rows@[11 + k], issuer@, ccy@),
        decreases rows.len() - i,
    {
        r.push(csv_entry_of(&rows[i], issuer, ccy));
        i = i + 1;
    }
    r
}

/// The Russian month name that starts at `q`, if any.
fn month_name_at(s: &Vec<char>, q: usize) -> (r: Option<String>)
    ensures
        opt_view(r) == month_at(s@, q as int),
        r matches Some(m) ==> occurs_at(s@, m@, q as int),
{
    if matches_at(s, &chars_of("января"), q) {
        Some(String::from_str("января"))
    } else if matches_at(s, &chars_of("февраля"), q) {
        Some(String::from_str("февраля"))
    } else if matches_at(s, &chars_of("марта"), q) {
        Some(String::from_str("марта"))
    } else if matches_at(s, &chars_of("апреля"), q) {
        Some(String::from_str("апреля"))
    } else if matches_at(s, &chars_of("мая"), q) {
        Some(String::from_str("мая"))
    } else if matches_at(s, &chars_of("июня"), q) {
        Some(String::from_str("июня"))
    } else if matches_at(s, &chars_of("июля"), q) {
        Some(String::from_str("июля"))
    } else if matches_at(s, &chars_of("августа"), q) {
        Some(String::from_str("августа"))
    } else if matches_at(s, &chars_of("сентября"), q) {
        Some(String::from_str("сентября"))
    } else if matches_at(s, &chars_of("октября"), q) {
        Some(String::from_str("октября"))
    } else if matches_at(s, &chars_of("ноября"), q) {
        Some(String::from_str("ноября"))
    } else if matches_at(s, &chars_of("декабря"), q) {
        Some(String::from_str("декабря"))
    } else {
        None
    }
}

} // verus!
