//! The canonical statement model shared by every format.
//!
//! Each type is a plain data container; `default` gives the value whose
//! text fields are empty, whose numbers are zero and whose lists are empty.
use vstd::prelude::*;
use crate::text::{chars_of, lemma_run_chars, replace_all, replaced, run_at, run_len, CharClass};

verus! {

/// A CAMT.053 document: its list of account statements.
#[derive(Debug, PartialEq)]
pub struct DocumentCamt053 {
    pub bk_to_cstmr_stmt: Vec<BkToCstmrStmt>,
}

impl DocumentCamt053 {
    /// Every field holds its empty value.
    pub open spec fn is_blank(&self) -> bool {
        &&& self.bk_to_cstmr_stmt@.len() == 0
    }
}

impl Default for DocumentCamt053 {
    fn default() -> (r: Self)
        ensures
            r.is_blank(),
    {
        DocumentCamt053 {
            bk_to_cstmr_stmt: Vec::new(),
        }
    }
}

/// One account statement with its group header.
#[derive(Debug, PartialEq)]
pub struct BkToCstmrStmt {
    pub grp_hdr: HeaderAttribute,
    pub stmt: StatementAttribute,
}

impl BkToCstmrStmt {
    /// Every field holds its empty value.
    pub open spec fn is_blank(&self) -> bool {
        &&& self.grp_hdr.is_blank()
        &&& self.stmt.is_blank()
    }
}

impl Default for BkToCstmrStmt {
    fn default() -> (r: Self)
        ensures
            r.is_blank(),
    {
        BkToCstmrStmt {
            grp_hdr: HeaderAttribute::default(),
            stmt: StatementAttribute::default(),
        }
    }
}

/// Group header: message id and creation timestamp.
#[derive(Debug, PartialEq)]
pub struct HeaderAttribute {
    pub msg_id: String,
    pub cre_dt_tm: String,
}

impl HeaderAttribute {
    /// Every field holds its empty value.
    pub open spec fn is_blank(&self) -> bool {
        &&& self.msg_id@.len() == 0
        &&& self.cre_dt_tm@.len() == 0
    }
}

impl Default for HeaderAttribute {
    fn default() -> (r: Self)
        ensures
            r.is_blank(),
    {
        HeaderAttribute {
            msg_id: String::new(),
            cre_dt_tm: String::new(),
        }
    }
}

/// The statement proper.
#[derive(Debug, PartialEq)]
pub struct StatementAttribute {
    pub id: String,
    pub elctrnc_seq_nb: String,
    pub lgl_seq_nb: String,
    pub cre_dt_tm: String,
    pub fr_to_dt: FromToDtAttribute,
    pub acct: AcctAttribute,
    pub bal: Vec<BalanceAttribute>,
    pub txs_summry: TxsSummryAttribute,
    pub ntry: Vec<NtryAttribute>,
}

impl StatementAttribute {
    /// Every field holds its empty value.
    pub open spec fn is_blank(&self) -> bool {
        &&& self.id@.len() == 0
        &&& self.elctrnc_seq_nb@.len() == 0
        &&& self.lgl_seq_nb@.len() == 0
        &&& self.cre_dt_tm@.len() == 0
        &&& self.fr_to_dt.is_blank()
        &&& self.acct.is_blank()
        &&& self.bal@.len() == 0
        &&& self.txs_summry.is_blank()
        &&& self.ntry@.len() == 0
    }
}

impl Default for StatementAttribute {
    fn default() -> (r: Self)
        ensures
            r.is_blank(),
    {
        StatementAttribute {
            id: String::new(),
            elctrnc_seq_nb: String::new(),
            lgl_seq_nb: String::new(),
            cre_dt_tm: String::new(),
            fr_to_dt: FromToDtAttribute::default(),
            acct: AcctAttribute::default(),
            bal: Vec::new(),
            txs_summry: TxsSummryAttribute::default(),
            ntry: Vec::new(),
        }
    }
}

/// One statement entry.
#[derive(Debug, PartialEq)]
pub struct NtryAttribute {
    pub ntry_ref: u32,
    pub amt: AmtAttribute,
    pub cdt_dbt_ind: String,
    pub sts: String,
    pub bookg_dt: DtAttribute,
    pub val_dt: DtAttribute,
    pub acct_svcr_ref: String,
    pub bk_tx_cd: BxTxCdAttribute,
    pub addtl_inf_ind: AddtlTxInfAtttribute,
    pub ntry_dtls: NtryDtlsAttribute,
}

impl NtryAttribute {
    /// Every field holds its empty value.
    pub open spec fn is_blank(&self) -> bool {
        &&& self.ntry_ref == 0
        &&& self.amt.is_blank()
        &&& self.cdt_dbt_ind@.len() == 0
        &&& self.sts@.len() == 0
        &&& self.bookg_dt.is_blank()
        &&& self.val_dt.is_blank()
        &&& self.acct_svcr_ref@.len() == 0
        &&& self.bk_tx_cd.is_blank()
        &&& self.addtl_inf_ind.is_blank()
        &&& self.ntry_dtls.is_blank()
    }
}

impl Default for NtryAttribute {
    fn default() -> (r: Self)
        ensures
            r.is_blank(),
    {
        NtryAttribute {
            ntry_ref: 0,
            amt: AmtAttribute::default(),
            cdt_dbt_ind: String::new(),
            sts: String::new(),
            bookg_dt: DtAttribute::default(),
            val_dt: DtAttribute::default(),
            acct_svcr_ref: String::new(),
            bk_tx_cd: BxTxCdAttribute::default(),
            addtl_inf_ind: AddtlTxInfAtttribute::default(),
            ntry_dtls: NtryDtlsAttribute::default(),
        }
    }
}

/// Details of an entry: its transaction records.
#[derive(Debug, PartialEq)]
pub struct NtryDtlsAttribute {
    pub btch: BtchAttribute,
    pub tx_dtls: Vec<TxDtlsAttribute>,
}

impl NtryDtlsAttribute {
    /// Every field holds its empty value.
    pub open spec fn is_blank(&self) -> bool {
        &&& self.btch.is_blank()
        &&& self.tx_dtls@.len() == 0
    }
}

impl Default for NtryDtlsAttribute {
    fn default() -> (r: Self)
        ensures
            r.is_blank(),
    {
        NtryDtlsAttribute {
            btch: BtchAttribute::default(),
            tx_dtls: Vec::new(),
        }
    }
}

/// Batch information.
#[derive(Debug, PartialEq)]
pub struct BtchAttribute {
    pub nb_of_txs: u32,
}

impl BtchAttribute {
    /// Every field holds its empty value.
    pub open spec fn is_blank(&self) -> bool {
        &&& self.nb_of_txs == 0
    }
}

impl Default for BtchAttribute {
    fn default() -> (r: Self)
        ensures
            r.is_blank(),
    {
        BtchAttribute {
            nb_of_txs: 0,
        }
    }
}

/// One transaction detail record.
#[derive(Debug, PartialEq)]
pub struct TxDtlsAttribute {
    pub refs: EndToEndIdAttribute,
    pub amt_dtls: TxAmtAttribute,
    pub bk_tx_cd: BxTxCdAttribute,
    pub rltd_pties: RltdPtiesAttribute,
    pub rltd_agts: CdtrAgtAttribute,
    pub rmt_inf: RmtInfAttribute,
    pub rltd_dts: RltdDtsAttribute,
    pub addtl_tx_inf: String,
}

impl TxDtlsAttribute {
    /// Every field holds its empty value.
    pub open spec fn is_blank(&self) -> bool {
        &&& self.refs.is_blank()
        &&& self.amt_dtls.is_blank()
        &&& self.bk_tx_cd.is_blank()
        &&& self.rltd_pties.is_blank()
        &&& self.rltd_agts.is_blank()
        &&& self.rmt_inf.is_blank()
        &&& self.rltd_dts.is_blank()
        &&& self.addtl_tx_inf@.len() == 0
    }
}

impl Default for TxDtlsAttribute {
    fn default() -> (r: Self)
        ensures
            r.is_blank(),
    {
        TxDtlsAttribute {
            refs: EndToEndIdAttribute::default(),
            amt_dtls: TxAmtAttribute::default(),
            bk_tx_cd: BxTxCdAttribute::default(),
            rltd_pties: RltdPtiesAttribute::default(),
            rltd_agts: CdtrAgtAttribute::default(),
            rmt_inf: RmtInfAttribute::default(),
            rltd_dts: RltdDtsAttribute::default(),
            addtl_tx_inf: String::new(),
        }
    }
}

/// Additional entry information.
#[derive(Debug, PartialEq)]
pub struct AddtlTxInfAtttribute {
    pub msg_nm_id: String,
}

impl AddtlTxInfAtttribute {
    /// Every field holds its empty value.
    pub open spec fn is_blank(&self) -> bool {
        &&& self.msg_nm_id@.len() == 0
    }
}

impl Default for AddtlTxInfAtttribute {
    fn default() -> (r: Self)
        ensures
            r.is_blank(),
    {
        AddtlTxInfAtttribute {
            msg_nm_id: String::new(),
        }
    }
}

/// The agents of both counterparties.
#[derive(Debug, PartialEq)]
pub struct CdtrAgtAttribute {
    pub cdtr_agt: SvcrAttribute,
    pub dbtr_agt: SvcrAttribute,
}

impl CdtrAgtAttribute {
    /// Every field holds its empty value.
    pub open spec fn is_blank(&self) -> bool {
        &&& self.cdtr_agt.is_blank()
        &&& self.dbtr_agt.is_blank()
    }
}

impl Default for CdtrAgtAttribute {
    fn default() -> (r: Self)
        ensures
            r.is_blank(),
    {
        CdtrAgtAttribute {
            cdtr_agt: SvcrAttribute::default(),
            dbtr_agt: SvcrAttribute::default(),
        }
    }
}

/// References of a transaction.
#[derive(Debug, PartialEq)]
pub struct EndToEndIdAttribute {
    pub pmt_inf_id: String,
    pub instr_id: String,
    pub end_to_end_id: String,
    pub tx_id: String,
    pub prtry: PrtryDetAttribute,
}

impl EndToEndIdAttribute {
    /// Every field holds its empty value.
    pub open spec fn is_blank(&self) -> bool {
        &&& self.pmt_inf_id@.len() == 0
        &&& self.instr_id@.len() == 0
        &&& self.end_to_end_id@.len() == 0
        &&& self.tx_id@.len() == 0
        &&& self.prtry.is_blank()
    }
}

impl Default for EndToEndIdAttribute {
    fn default() -> (r: Self)
        ensures
            r.is_blank(),
    {
        EndToEndIdAttribute {
            pmt_inf_id: String::new(),
            instr_id: String::new(),
            end_to_end_id: String::new(),
            tx_id: String::new(),
            prtry: PrtryDetAttribute::default(),
        }
    }
}

/// A proprietary reference and its type.
#[derive(Debug, PartialEq)]
pub struct PrtryDetAttribute {
    pub tp: String,
    pub refdt: String,
}

impl PrtryDetAttribute {
    /// Every field holds its empty value.
    pub open spec fn is_blank(&self) -> bool {
        &&& self.tp@.len() == 0
        &&& self.refdt@.len() == 0
    }
}

impl Default for PrtryDetAttribute {
    fn default() -> (r: Self)
        ensures
            r.is_blank(),
    {
        PrtryDetAttribute {
            tp: String::new(),
            refdt: String::new(),
        }
    }
}

/// Amount details of a transaction.
#[derive(Debug, PartialEq)]
pub struct TxAmtAttribute {
    pub end_to_end_id: String,
    pub instd_amt: PrtryAmtAttribute,
    pub tx_amt: PrtryAmtAttribute,
    pub prtry_amt: PrtryAmtAttribute,
    pub amt: String,
}

impl TxAmtAttribute {
    /// Every field holds its empty value.
    pub open spec fn is_blank(&self) -> bool {
        &&& self.end_to_end_id@.len() == 0
        &&& self.instd_amt.is_blank()
        &&& self.tx_amt.is_blank()
        &&& self.prtry_amt.is_blank()
        &&& self.amt@.len() == 0
    }
}

impl Default for TxAmtAttribute {
    fn default() -> (r: Self)
        ensures
            r.is_blank(),
    {
        TxAmtAttribute {
            end_to_end_id: String::new(),
            instd_amt: PrtryAmtAttribute::default(),
            tx_amt: PrtryAmtAttribute::default(),
            prtry_amt: PrtryAmtAttribute::default(),
            amt: String::new(),
        }
    }
}

/// A typed amount with its exchange information.
#[derive(Debug, PartialEq)]
pub struct PrtryAmtAttribute {
    pub tp: String,
    pub amt: AmtAttribute,
    pub ccy_xchg: CcyXchgAttribute,
}

impl PrtryAmtAttribute {
    /// Every field holds its empty value.
    pub open spec fn is_blank(&self) -> bool {
        &&& self.tp@.len() == 0
        &&& self.amt.is_blank()
        &&& self.ccy_xchg.is_blank()
    }
}

impl Default for PrtryAmtAttribute {
    fn default() -> (r: Self)
        ensures
            r.is_blank(),
    {
        PrtryAmtAttribute {
            tp: String::new(),
            amt: AmtAttribute::default(),
            ccy_xchg: CcyXchgAttribute::default(),
        }
    }
}

/// Currency exchange information.
#[derive(Debug, PartialEq)]
pub struct CcyXchgAttribute {
    pub src_ccy: String,
    pub trgt_ccy: String,
    pub unit_ccy: String,
    pub xchg_rate: String,
}

impl CcyXchgAttribute {
    /// Every field holds its empty value.
    pub open spec fn is_blank(&self) -> bool {
        &&& self.src_ccy@.len() == 0
        &&& self.trgt_ccy@.len() == 0
        &&& self.unit_ccy@.len() == 0
        &&& self.xchg_rate@.len() == 0
    }
}

impl Default for CcyXchgAttribute {
    fn default() -> (r: Self)
        ensures
            r.is_blank(),
    {
        CcyXchgAttribute {
            src_ccy: String::new(),
            trgt_ccy: String::new(),
            unit_ccy: String::new(),
            xchg_rate: String::new(),
        }
    }
}

/// The counterparties of a transaction.
#[derive(Debug, PartialEq)]
pub struct RltdPtiesAttribute {
    pub dbtr: DbtrAttribute,
    pub dbtr_acct: IdTxDtlsAttribute,
    pub cdtr: CdtrAttribue,
    pub cdtr_acct: IdTxDtlsAttribute,
}

impl RltdPtiesAttribute {
    /// Every field holds its empty value.
    pub open spec fn is_blank(&self) -> bool {
        &&& self.dbtr.is_blank()
        &&& self.dbtr_acct.is_blank()
        &&& self.cdtr.is_blank()
        &&& self.cdtr_acct.is_blank()
    }
}

impl Default for RltdPtiesAttribute {
    fn default() -> (r: Self)
        ensures
            r.is_blank(),
    {
        RltdPtiesAttribute {
            dbtr: DbtrAttribute::default(),
            dbtr_acct: IdTxDtlsAttribute::default(),
            cdtr: CdtrAttribue::default(),
            cdtr_acct: IdTxDtlsAttribute::default(),
        }
    }
}

/// The debtor.
#[derive(Debug, PartialEq)]
pub struct DbtrAttribute {
    pub id: PrvtIdAttribute,
    pub nm: String,
    pub pstl_adr: PostalAddressAttribute,
}

impl DbtrAttribute {
    /// Every field holds its empty value.
    pub open spec fn is_blank(&self) -> bool {
        &&& self.id.is_blank()
        &&& self.nm@.len() == 0
        &&& self.pstl_adr.is_blank()
    }
}

impl Default for DbtrAttribute {
    fn default() -> (r: Self)
        ensures
            r.is_blank(),
    {
        DbtrAttribute {
            id: PrvtIdAttribute::default(),
            nm: String::new(),
            pstl_adr: PostalAddressAttribute::default(),
        }
    }
}

/// A private identification.
#[derive(Debug, PartialEq)]
pub struct PrvtIdAttribute {
    pub othr: IdDtldAttribute,
}

impl PrvtIdAttribute {
    /// Every field holds its empty value.
    pub open spec fn is_blank(&self) -> bool {
        &&& self.othr.is_blank()
    }
}

impl Default for PrvtIdAttribute {
    fn default() -> (r: Self)
        ensures
            r.is_blank(),
    {
        PrvtIdAttribute {
            othr: IdDtldAttribute::default(),
        }
    }
}

/// The creditor.
#[derive(Debug, PartialEq)]
pub struct CdtrAttribue {
    pub id: PrvtIdAttribute,
    pub nm: String,
    pub pstl_adr: PostalAddressAttribute,
}

impl CdtrAttribue {
    /// Every field holds its empty value.
    pub open spec fn is_blank(&self) -> bool {
        &&& self.id.is_blank()
        &&& self.nm@.len() == 0
        &&& self.pstl_adr.is_blank()
    }
}

impl Default for CdtrAttribue {
    fn default() -> (r: Self)
        ensures
            r.is_blank(),
    {
        CdtrAttribue {
            id: PrvtIdAttribute::default(),
            nm: String::new(),
            pstl_adr: PostalAddressAttribute::default(),
        }
    }
}

/// Remittance information.
#[derive(Debug, PartialEq)]
pub struct RmtInfAttribute {
    pub ustrd: Vec<String>,
    pub strd: StrdAttribute,
}

impl RmtInfAttribute {
    /// Every field holds its empty value.
    pub open spec fn is_blank(&self) -> bool {
        &&& self.ustrd@.len() == 0
        &&& self.strd.is_blank()
    }
}

impl Default for RmtInfAttribute {
    fn default() -> (r: Self)
        ensures
            r.is_blank(),
    {
        RmtInfAttribute {
            ustrd: Vec::new(),
            strd: StrdAttribute::default(),
        }
    }
}

/// Structured remittance information.
#[derive(Debug, PartialEq)]
pub struct StrdAttribute {
    pub cdtr_ref_inf: CdtrRefInfAttribute,
}

impl StrdAttribute {
    /// Every field holds its empty value.
    pub open spec fn is_blank(&self) -> bool {
        &&& self.cdtr_ref_inf.is_blank()
    }
}

impl Default for StrdAttribute {
    fn default() -> (r: Self)
        ensures
            r.is_blank(),
    {
        StrdAttribute {
            cdtr_ref_inf: CdtrRefInfAttribute::default(),
        }
    }
}

/// Related dates.
#[derive(Debug, PartialEq)]
pub struct RltdDtsAttribute {
    pub accptnc_dt_tm: String,
}

impl RltdDtsAttribute {
    /// Every field holds its empty value.
    pub open spec fn is_blank(&self) -> bool {
        &&& self.accptnc_dt_tm@.len() == 0
    }
}

impl Default for RltdDtsAttribute {
    fn default() -> (r: Self)
        ensures
            r.is_blank(),
    {
        RltdDtsAttribute {
            accptnc_dt_tm: String::new(),
        }
    }
}

/// Creditor reference information.
#[derive(Debug, PartialEq)]
pub struct CdtrRefInfAttribute {
    pub tp: CdOrPrtryAttribute,
    pub ref_cdtr: String,
}

impl CdtrRefInfAttribute {
    /// Every field holds its empty value.
    pub open spec fn is_blank(&self) -> bool {
        &&& self.tp.is_blank()
        &&& self.ref_cdtr@.len() == 0
    }
}

impl Default for CdtrRefInfAttribute {
    fn default() -> (r: Self)
        ensures
            r.is_blank(),
    {
        CdtrRefInfAttribute {
            tp: CdOrPrtryAttribute::default(),
            ref_cdtr: String::new(),
        }
    }
}

/// A code or proprietary value.
#[derive(Debug, PartialEq)]
pub struct CdOrPrtryAttribute {
    pub cd_or_prtry: CdAttribute,
}

impl CdOrPrtryAttribute {
    /// Every field holds its empty value.
    pub open spec fn is_blank(&self) -> bool {
        &&& self.cd_or_prtry.is_blank()
    }
}

impl Default for CdOrPrtryAttribute {
    fn default() -> (r: Self)
        ensures
            r.is_blank(),
    {
        CdOrPrtryAttribute {
            cd_or_prtry: CdAttribute::default(),
        }
    }
}

/// An account identification in transaction details.
#[derive(Debug, PartialEq)]
pub struct IdTxDtlsAttribute {
    pub id: IdIbanAttribute,
    pub other: IdDtldAttribute,
}

impl IdTxDtlsAttribute {
    /// Every field holds its empty value.
    pub open spec fn is_blank(&self) -> bool {
        &&& self.id.is_blank()
        &&& self.other.is_blank()
    }
}

impl Default for IdTxDtlsAttribute {
    fn default() -> (r: Self)
        ensures
            r.is_blank(),
    {
        IdTxDtlsAttribute {
            id: IdIbanAttribute::default(),
            other: IdDtldAttribute::default(),
        }
    }
}

/// A plain identifier.
#[derive(Debug, PartialEq)]
pub struct IdDtldAttribute {
    pub id: String,
}

impl IdDtldAttribute {
    /// Every field holds its empty value.
    pub open spec fn is_blank(&self) -> bool {
        &&& self.id@.len() == 0
    }
}

impl Default for IdDtldAttribute {
    fn default() -> (r: Self)
        ensures
            r.is_blank(),
    {
        IdDtldAttribute {
            id: String::new(),
        }
    }
}

/// An amount (dot-decimal text) with its currency.
#[derive(Debug, PartialEq)]
pub struct AmtAttribute {
    pub ccy: String,
    pub amt: String,
}

impl AmtAttribute {
    /// Every field holds its empty value.
    pub open spec fn is_blank(&self) -> bool {
        &&& self.ccy@.len() == 0
        &&& self.amt@.len() == 0
    }
}

impl Default for AmtAttribute {
    fn default() -> (r: Self)
        ensures
            r.is_blank(),
    {
        AmtAttribute {
            ccy: String::new(),
            amt: String::new(),
        }
    }
}

/// Bank transaction code.
#[derive(Debug, PartialEq)]
pub struct BxTxCdAttribute {
    pub domn: DomnAttribute,
    pub prtry: PrtryAttribute,
}

impl BxTxCdAttribute {
    /// Every field holds its empty value.
    pub open spec fn is_blank(&self) -> bool {
        &&& self.domn.is_blank()
        &&& self.prtry.is_blank()
    }
}

impl Default for BxTxCdAttribute {
    fn default() -> (r: Self)
        ensures
            r.is_blank(),
    {
        BxTxCdAttribute {
            domn: DomnAttribute::default(),
            prtry: PrtryAttribute::default(),
        }
    }
}

/// Domain of a bank transaction code.
#[derive(Debug, PartialEq)]
pub struct DomnAttribute {
    pub cd: String,
    pub fmly: FmlyAttribute,
}

impl DomnAttribute {
    /// Every field holds its empty value.
    pub open spec fn is_blank(&self) -> bool {
        &&& self.cd@.len() == 0
        &&& self.fmly.is_blank()
    }
}

impl Default for DomnAttribute {
    fn default() -> (r: Self)
        ensures
            r.is_blank(),
    {
        DomnAttribute {
            cd: String::new(),
            fmly: FmlyAttribute::default(),
        }
    }
}

/// Family of a bank transaction code.
#[derive(Debug, PartialEq)]
pub struct FmlyAttribute {
    pub cd: String,
    pub sub_fmly_cd: String,
}

impl FmlyAttribute {
    /// Every field holds its empty value.
    pub open spec fn is_blank(&self) -> bool {
        &&& self.cd@.len() == 0
        &&& self.sub_fmly_cd@.len() == 0
    }
}

impl Default for FmlyAttribute {
    fn default() -> (r: Self)
        ensures
            r.is_blank(),
    {
        FmlyAttribute {
            cd: String::new(),
            sub_fmly_cd: String::new(),
        }
    }
}

/// Proprietary bank transaction code and its issuer.
#[derive(Debug, PartialEq)]
pub struct PrtryAttribute {
    pub cd: String,
    pub issr: String,
}

impl PrtryAttribute {
    /// Every field holds its empty value.
    pub open spec fn is_blank(&self) -> bool {
        &&& self.cd@.len() == 0
        &&& self.issr@.len() == 0
    }
}

impl Default for PrtryAttribute {
    fn default() -> (r: Self)
        ensures
            r.is_blank(),
    {
        PrtryAttribute {
            cd: String::new(),
            issr: String::new(),
        }
    }
}

/// Transaction summary totals.
#[derive(Debug, PartialEq)]
pub struct TxsSummryAttribute {
    pub ttl_ntries: TtlNtriesAttribute,
    pub ttl_cdt_ntries: TtlCdtDbtNtriesAttribute,
    pub ttl_dbt_ntries: TtlCdtDbtNtriesAttribute,
}

impl TxsSummryAttribute {
    /// Every field holds its empty value.
    pub open spec fn is_blank(&self) -> bool {
        &&& self.ttl_ntries.is_blank()
        &&& self.ttl_cdt_ntries.is_blank()
        &&& self.ttl_dbt_ntries.is_blank()
    }
}

impl Default for TxsSummryAttribute {
    fn default() -> (r: Self)
        ensures
            r.is_blank(),
    {
        TxsSummryAttribute {
            ttl_ntries: TtlNtriesAttribute::default(),
            ttl_cdt_ntries: TtlCdtDbtNtriesAttribute::default(),
            ttl_dbt_ntries: TtlCdtDbtNtriesAttribute::default(),
        }
    }
}

/// Totals over all entries; the net amount is decimal text.
#[derive(Debug, PartialEq)]
pub struct TtlNtriesAttribute {
    pub nb_of_ntries: String,
    pub ttl_net_ntry_amt: String,
    pub cdt_dbt_ind: String,
}

impl TtlNtriesAttribute {
    /// Every field holds its empty value.
    pub open spec fn is_blank(&self) -> bool {
        &&& self.nb_of_ntries@.len() == 0
        &&& self.ttl_net_ntry_amt@.len() == 0
        &&& self.cdt_dbt_ind@.len() == 0
    }
}

impl Default for TtlNtriesAttribute {
    fn default() -> (r: Self)
        ensures
            r.is_blank(),
    {
        TtlNtriesAttribute {
            nb_of_ntries: String::new(),
            ttl_net_ntry_amt: String::new(),
            cdt_dbt_ind: String::new(),
        }
    }
}

/// Totals over credit or debit entries.
#[derive(Debug, PartialEq)]
pub struct TtlCdtDbtNtriesAttribute {
    pub nb_of_ntries: u32,
    pub sum: String,
}

impl TtlCdtDbtNtriesAttribute {
    /// Every field holds its empty value.
    pub open spec fn is_blank(&self) -> bool {
        &&& self.nb_of_ntries == 0
        &&& self.sum@.len() == 0
    }
}

impl Default for TtlCdtDbtNtriesAttribute {
    fn default() -> (r: Self)
        ensures
            r.is_blank(),
    {
        TtlCdtDbtNtriesAttribute {
            nb_of_ntries: 0,
            sum: String::new(),
        }
    }
}

/// A balance; `cd` is the MT940 sign letter.
#[derive(Debug, PartialEq)]
pub struct BalanceAttribute {
    pub tp: TpBalanceAttribute,
    pub amt: AmtAttribute,
    pub cdt_dbt_ind: String,
    pub dt: DtAttribute,
    pub cd: String,
}

impl BalanceAttribute {
    /// Every field holds its empty value.
    pub open spec fn is_blank(&self) -> bool {
        &&& self.tp.is_blank()
        &&& self.amt.is_blank()
        &&& self.cdt_dbt_ind@.len() == 0
        &&& self.dt.is_blank()
        &&& self.cd@.len() == 0
    }
}

impl Default for BalanceAttribute {
    fn default() -> (r: Self)
        ensures
            r.is_blank(),
    {
        BalanceAttribute {
            tp: TpBalanceAttribute::default(),
            amt: AmtAttribute::default(),
            cdt_dbt_ind: String::new(),
            dt: DtAttribute::default(),
            cd: String::new(),
        }
    }
}

/// A date as text.
#[derive(Debug, PartialEq)]
pub struct DtAttribute {
    pub dt: String,
}

impl DtAttribute {
    /// Every field holds its empty value.
    pub open spec fn is_blank(&self) -> bool {
        &&& self.dt@.len() == 0
    }
}

impl Default for DtAttribute {
    fn default() -> (r: Self)
        ensures
            r.is_blank(),
    {
        DtAttribute {
            dt: String::new(),
        }
    }
}

/// The type of a balance.
#[derive(Debug, PartialEq)]
pub struct TpBalanceAttribute {
    pub cd_or_prtry: CdAttribute,
}

impl TpBalanceAttribute {
    /// Every field holds its empty value.
    pub open spec fn is_blank(&self) -> bool {
        &&& self.cd_or_prtry.is_blank()
    }
}

impl Default for TpBalanceAttribute {
    fn default() -> (r: Self)
        ensures
            r.is_blank(),
    {
        TpBalanceAttribute {
            cd_or_prtry: CdAttribute::default(),
        }
    }
}

/// A code.
#[derive(Debug, PartialEq)]
pub struct CdAttribute {
    pub cd: String,
}

impl CdAttribute {
    /// Every field holds its empty value.
    pub open spec fn is_blank(&self) -> bool {
        &&& self.cd@.len() == 0
    }
}

impl Default for CdAttribute {
    fn default() -> (r: Self)
        ensures
            r.is_blank(),
    {
        CdAttribute {
            cd: String::new(),
        }
    }
}

/// The reporting period.
#[derive(Debug, PartialEq)]
pub struct FromToDtAttribute {
    pub fr_dt_tm: String,
    pub to_dt_tm: String,
}

impl FromToDtAttribute {
    /// Every field holds its empty value.
    pub open spec fn is_blank(&self) -> bool {
        &&& self.fr_dt_tm@.len() == 0
        &&& self.to_dt_tm@.len() == 0
    }
}

impl Default for FromToDtAttribute {
    fn default() -> (r: Self)
        ensures
            r.is_blank(),
    {
        FromToDtAttribute {
            fr_dt_tm: String::new(),
            to_dt_tm: String::new(),
        }
    }
}

/// The account descriptor.
#[derive(Debug, PartialEq)]
pub struct AcctAttribute {
    pub id: IdIbanAttribute,
    pub ccy: String,
    pub nm: String,
    pub ownr: OwnerAttribute,
    pub svcr: SvcrAttribute,
}

impl AcctAttribute {
    /// Every field holds its empty value.
    pub open spec fn is_blank(&self) -> bool {
        &&& self.id.is_blank()
        &&& self.ccy@.len() == 0
        &&& self.nm@.len() == 0
        &&& self.ownr.is_blank()
        &&& self.svcr.is_blank()
    }
}

impl Default for AcctAttribute {
    fn default() -> (r: Self)
        ensures
            r.is_blank(),
    {
        AcctAttribute {
            id: IdIbanAttribute::default(),
            ccy: String::new(),
            nm: String::new(),
            ownr: OwnerAttribute::default(),
            svcr: SvcrAttribute::default(),
        }
    }
}

/// An account identifier: IBAN or another scheme.
#[derive(Debug, PartialEq)]
pub struct IdIbanAttribute {
    pub iban: String,
    pub othr: OtherAttribute,
}

impl IdIbanAttribute {
    /// Every field holds its empty value.
    pub open spec fn is_blank(&self) -> bool {
        &&& self.iban@.len() == 0
        &&& self.othr.is_blank()
    }
}

impl Default for IdIbanAttribute {
    fn default() -> (r: Self)
        ensures
            r.is_blank(),
    {
        IdIbanAttribute {
            iban: String::new(),
            othr: OtherAttribute::default(),
        }
    }
}

/// A servicing institution.
#[derive(Debug, PartialEq)]
pub struct SvcrAttribute {
    pub fin_instn_id: FinInstIdAttribute,
}

impl SvcrAttribute {
    /// Every field holds its empty value.
    pub open spec fn is_blank(&self) -> bool {
        &&& self.fin_instn_id.is_blank()
    }
}

impl Default for SvcrAttribute {
    fn default() -> (r: Self)
        ensures
            r.is_blank(),
    {
        SvcrAttribute {
            fin_instn_id: FinInstIdAttribute::default(),
        }
    }
}

/// A financial institution: BIC, name and address.
#[derive(Debug, PartialEq)]
pub struct FinInstIdAttribute {
    pub bic: String,
    pub nm: String,
    pub pstl_adr: PostalAddressAttribute,
}

impl FinInstIdAttribute {
    /// Every field holds its empty value.
    pub open spec fn is_blank(&self) -> bool {
        &&& self.bic@.len() == 0
        &&& self.nm@.len() == 0
        &&& self.pstl_adr.is_blank()
    }
}

impl Default for FinInstIdAttribute {
    fn default() -> (r: Self)
        ensures
            r.is_blank(),
    {
        FinInstIdAttribute {
            bic: String::new(),
            nm: String::new(),
            pstl_adr: PostalAddressAttribute::default(),
        }
    }
}

/// The account owner.
#[derive(Debug, PartialEq)]
pub struct OwnerAttribute {
    pub nm: String,
    pub pstl_adr: PostalAddressAttribute,
    pub bldg_nb: u32,
    pub pst_cd: u32,
    pub twn_nm: String,
    pub ctry: String,
    pub id: IdAttribute,
}

impl OwnerAttribute {
    /// Every field holds its empty value.
    pub open spec fn is_blank(&self) -> bool {
        &&& self.nm@.len() == 0
        &&& self.pstl_adr.is_blank()
        &&& self.bldg_nb == 0
        &&& self.pst_cd == 0
        &&& self.twn_nm@.len() == 0
        &&& self.ctry@.len() == 0
        &&& self.id.is_blank()
    }
}

impl Default for OwnerAttribute {
    fn default() -> (r: Self)
        ensures
            r.is_blank(),
    {
        OwnerAttribute {
            nm: String::new(),
            pstl_adr: PostalAddressAttribute::default(),
            bldg_nb: 0,
            pst_cd: 0,
            twn_nm: String::new(),
            ctry: String::new(),
            id: IdAttribute::default(),
        }
    }
}

/// An owner identification.
#[derive(Debug, PartialEq)]
pub struct IdAttribute {
    pub org_id: OrgIdAttribute,
}

impl IdAttribute {
    /// Every field holds its empty value.
    pub open spec fn is_blank(&self) -> bool {
        &&& self.org_id.is_blank()
    }
}

impl Default for IdAttribute {
    fn default() -> (r: Self)
        ensures
            r.is_blank(),
    {
        IdAttribute {
            org_id: OrgIdAttribute::default(),
        }
    }
}

/// An organisation identification.
#[derive(Debug, PartialEq)]
pub struct OrgIdAttribute {
    pub othr: OtherAttribute,
}

impl OrgIdAttribute {
    /// Every field holds its empty value.
    pub open spec fn is_blank(&self) -> bool {
        &&& self.othr.is_blank()
    }
}

impl Default for OrgIdAttribute {
    fn default() -> (r: Self)
        ensures
            r.is_blank(),
    {
        OrgIdAttribute {
            othr: OtherAttribute::default(),
        }
    }
}

/// An identifier under a named scheme.
#[derive(Debug, PartialEq)]
pub struct OtherAttribute {
    pub id: String,
    pub schme_nm: ShemeNumberAttribute,
}

impl OtherAttribute {
    /// Every field holds its empty value.
    pub open spec fn is_blank(&self) -> bool {
        &&& self.id@.len() == 0
        &&& self.schme_nm.is_blank()
    }
}

impl Default for OtherAttribute {
    fn default() -> (r: Self)
        ensures
            r.is_blank(),
    {
        OtherAttribute {
            id: String::new(),
            schme_nm: ShemeNumberAttribute::default(),
        }
    }
}

/// The name of an identification scheme.
#[derive(Debug, PartialEq)]
pub struct ShemeNumberAttribute {
    pub cd: String,
}

impl ShemeNumberAttribute {
    /// Every field holds its empty value.
    pub open spec fn is_blank(&self) -> bool {
        &&& self.cd@.len() == 0
    }
}

impl Default for ShemeNumberAttribute {
    fn default() -> (r: Self)
        ensures
            r.is_blank(),
    {
        ShemeNumberAttribute {
            cd: String::new(),
        }
    }
}

/// A postal address.
#[derive(Debug, PartialEq)]
pub struct PostalAddressAttribute {
    pub strt_nm: String,
    pub bldg_nb: String,
    pub pst_cd: String,
    pub twn_nm: String,
    pub ctry: String,
    pub adr_line: Vec<String>,
}

impl PostalAddressAttribute {
    /// Every field holds its empty value.
    pub open spec fn is_blank(&self) -> bool {
        &&& self.strt_nm@.len() == 0
        &&& self.bldg_nb@.len() == 0
        &&& self.pst_cd@.len() == 0
        &&& self.twn_nm@.len() == 0
        &&& self.ctry@.len() == 0
        &&& self.adr_line@.len() == 0
    }
}

impl Default for PostalAddressAttribute {
    fn default() -> (r: Self)
        ensures
            r.is_blank(),
    {
        PostalAddressAttribute {
            strt_nm: String::new(),
            bldg_nb: String::new(),
            pst_cd: String::new(),
            twn_nm: String::new(),
            ctry: String::new(),
            adr_line: Vec::new(),
        }
    }
}

impl DocumentCamt053 {
    /// An empty document.
    pub fn new() -> (r: Self)
        ensures
            r.is_blank(),
    {
        DocumentCamt053::default()
    }
}

/// The date that a `YYMMDD` text stands for, as `20YY-MM-DD`; a text that
/// does not start with six ASCII digits gives `1979-01-01`. Characters past
/// the sixth are ignored.
pub open spec fn expanded_date(s: Seq<char>) -> Seq<char> {
    if run_len(s, 0, CharClass::Digit) >= 6 {
        seq!['2', '0', s[0], s[1], '-', s[2], s[3], '-', s[4], s[5]]
    } else {
        seq!['1', '9', '7', '9', '-', '0', '1', '-', '0', '1']
    }
}

impl DtAttribute {
    /// Expands a `YYMMDD` date into `20YY-MM-DD`.
    pub fn format_dt(dt_str: &str) -> (r: Self)
        ensures
            r.dt@ == expanded_date(dt_str@),
    {
        let c = chars_of(dt_str);
        let mut dt = String::new();
        if run_at(&c, 0, CharClass::Digit) >= 6 {
            proof {
                lemma_run_chars(c@, 0, CharClass::Digit);
            }
            dt.push('2');
            dt.push('0');
            dt.push(c[0]);
            dt.push(c[1]);
            dt.push('-');
            dt.push(c[2]);
            dt.push(c[3]);
            dt.push('-');
            dt.push(c[4]);
            dt.push(c[5]);
        } else {
            dt.push('1');
            dt.push('9');
            dt.push('7');
            dt.push('9');
            dt.push('-');
            dt.push('0');
            dt.push('1');
            dt.push('-');
            dt.push('0');
            dt.push('1');
        }
        assert(dt@ =~= expanded_date(dt_str@));
        DtAttribute { dt }
    }
}

/// What `regex::Regex::replace_all` gives for `pattern` on `text`: every
/// leftmost-first, non-overlapping match replaced by `rep`.
pub uninterp spec fn regex_replaced(pattern: Seq<char>, text: Seq<char>, rep: Seq<char>) -> Seq<char>;

/// Whether `regex::Regex::new` accepts `pattern`.
pub uninterp spec fn regex_compiles(pattern: Seq<char>) -> bool;

/// Relies on `regex::Regex::new` and `Regex::replace_all`: `text` with
/// each match of `pattern` replaced by `rep`; `None` when `pattern` is not
/// a valid expression.
#[verifier::external_body]
fn regex_replace_all(pattern: &str, text: &str, rep: &str) -> (r: Option<String>)
    ensures
        r is Some <==> regex_compiles(pattern@),
        r matches Some(t) ==> t@ == regex_replaced(pattern@, text@, rep@),
{
    match regex::Regex::new(pattern) {
        Ok(re) => Some(re.replace_all(text, rep).into_owned()),
        Err(_) => None,
    }
}

/// The root element that the XML serializer writes, with its declaration.
pub open spec fn plain_root() -> Seq<char> {
    "<?xml version=\"1.0\" encoding=\"UTF-8\"?><Document>"@
}

/// The CAMT.053 root element, with its namespace and schema location.
pub open spec fn schema_root() -> Seq<char> {
    "<Document xmlns=\"urn:iso:std:iso:20022:tech:xsd:camt.053.001.02\" xmlns:xsi=\"http://www.w3.org/2001/XMLSchema-instance\" xsi:schemaLocation=\"urn:iso:std:iso:20022:tech:xsd:camt.053.001.02 camt.053.001.02.xsd\">"@
}

/// The pattern of a namespace declaration attribute.
pub open spec fn namespace_pattern() -> Seq<char> {
    "xmlns[= \\w/\\d:\".-]+"@
}

impl DocumentCamt053 {
    /// Takes every `xmlns...` namespace declaration out of an XML text, so
    /// that elements can be read by their plain names.
    pub fn remove_name_space(xml: &str) -> (r: Option<String>)
        ensures
            r is Some <==> regex_compiles(namespace_pattern()),
            r matches Some(t) ==> t@ == regex_replaced(namespace_pattern(), xml@, ""@),
    {
        regex_replace_all("xmlns[= \\w/\\d:\".-]+", xml, "")
    }

    /// Puts the CAMT.053 namespace and schema location on the root element
    /// of serialized XML.
    pub fn with_schema_root(xml: &str) -> (r: String)
        ensures
            r@ == replaced(xml@, plain_root(), schema_root()),
    {
        replace_all(
            xml,
            "<?xml version=\"1.0\" encoding=\"UTF-8\"?><Document>",
            "<Document xmlns=\"urn:iso:std:iso:20022:tech:xsd:camt.053.001.02\" xmlns:xsi=\"http://www.w3.org/2001/XMLSchema-instance\" xsi:schemaLocation=\"urn:iso:std:iso:20022:tech:xsd:camt.053.001.02 camt.053.001.02.xsd\">",
        )
    }
}

} // verus!
