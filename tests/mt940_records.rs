use bank_converter::camt053::{
    AcctAttribute, AddtlTxInfAtttribute, AmtAttribute, BalanceAttribute, BkToCstmrStmt, BtchAttribute,
    BxTxCdAttribute, CcyXchgAttribute, CdAttribute, CdOrPrtryAttribute, CdtrAgtAttribute,
    CdtrAttribue, CdtrRefInfAttribute, DbtrAttribute, DomnAttribute, DtAttribute,
    EndToEndIdAttribute, FinInstIdAttribute, FmlyAttribute, FromToDtAttribute, HeaderAttribute,
    IdAttribute, IdDtldAttribute, IdIbanAttribute, IdTxDtlsAttribute, NtryAttribute,
    NtryDtlsAttribute, OrgIdAttribute, OtherAttribute, OwnerAttribute, PostalAddressAttribute,
    PrtryAmtAttribute, PrtryAttribute, PrtryDetAttribute, PrvtIdAttribute, RltdDtsAttribute,
    RltdPtiesAttribute, RmtInfAttribute, ShemeNumberAttribute, StatementAttribute,
    StrdAttribute, SvcrAttribute, TpBalanceAttribute, TtlCdtDbtNtriesAttribute,
    TtlNtriesAttribute, TxAmtAttribute, TxDtlsAttribute, TxsSummryAttribute,
};
use bank_converter::errors::ParserError;
use bank_converter::mt940::DocumentMt940;

const SAMPLE: &str = "{1:F01GSCRUS30XXXX3614000002}{2:I940GSCRUS30XXXXN}{4:
                           :20:15486025400
                           :25:107048825
                           :28C:49/2
                           :60M:C250218USD2732398848,02
                           :61:2502180218D12,01NTRFGSLNVSHSUTKWDR//GI2504900007841
                           :86:/EREF/GSLNVSHSUTKWDR
                                /CRNM/GOLDMAN SACHS BANK USA
                                /CACT/107045863/CBIC/GSCRUS30XXX
                                /REMI/USD Payment to Vendor
                                /OPRP/Tag Payment
                           :61:2502180218D12,01NTRFGSOXWBAQYTF4VH//GI2504900005623
                           :86:/EREF/GSOXWBAQYTF4VH
                                /CRNM/GOLDMAN SACHS BANK USA
                                /CACT/107045863/CBIC/GSCRUS30XXX
                                /REMI/The maximum length of the block is 65 characters
                                /OPRP/Tag Payment}{5:-}";

#[test]
fn test_find_record(){
    let doc ="{1:}{5:-}{1:   }{2:}{3:}{4:}{5:-}".to_string();
    let result: Vec<(usize, usize)> = vec![(0, 4), (9, 28)];
    assert_eq!(DocumentMt940::find_record(&doc).unwrap(), result);
}
#[test]
fn test_parse_field_one() {
    let doc = "F01ASNBNL21XXXX0000000000".to_string();
    assert_eq!(DocumentMt940::parse_field_one(&doc), "ASNBNL21XXXX".to_string());
}
#[test]
fn test_parse_field_two() {
    let doc = "{2:O940ASNBNL21XXXXN}".to_string();
    let mut result = BkToCstmrStmt::default();
    DocumentMt940::parse_field_two(&doc, &mut result);
    assert_eq!(BkToCstmrStmt {
        grp_hdr: HeaderAttribute {
            msg_id: "ASNBNL21XXXXN".to_string(),
            cre_dt_tm: "".to_string(),
        },
        stmt: StatementAttribute {
            id: "ASNBNL21XXXXN-940".to_string(),
            elctrnc_seq_nb: "".to_string(),
            lgl_seq_nb: "".to_string(),
            cre_dt_tm: "".to_string(),
            fr_to_dt: Default::default(),
            acct: Default::default(),
            bal: vec![],
            txs_summry: Default::default(),
            ntry: vec![],
        },
    }, result);
}
#[test]
fn test_parse_field_86() {
    let doc = ":86:/NREF/NIOBNL56ASNB9999999999\n".to_string();
    let mut ntry_det_result: NtryDtlsAttribute = NtryDtlsAttribute::default();
    let mut ntry_det_test: NtryDtlsAttribute = NtryDtlsAttribute::default();
    let mut ntry_det_tlds: TxDtlsAttribute = TxDtlsAttribute::default();
    ntry_det_tlds.refs.prtry.tp = "NREF".to_string();
    ntry_det_tlds.refs.prtry.refdt = "NIOBNL56ASNB9999999999".to_string();
    ntry_det_test.tx_dtls.push(ntry_det_tlds);
    DocumentMt940::parse_field_86(&doc, "".to_string(), &mut ntry_det_result);
    assert_eq!(ntry_det_test, ntry_det_result);
}
#[test]
fn test_parse_field_61() {
    let field_61 = ":61:2001050105C1000,00NIOBNL56ASNB9999999999\n".to_string();
    let mut ntry_result = NtryAttribute::default();
    let mut ntry_test = NtryAttribute::default();
    ntry_test.amt.ccy = "EUR".to_string();
    ntry_test.val_dt.dt = "2020-01-05".to_string();
    ntry_test.bookg_dt.dt = "2020-01-05".to_string();
    ntry_test.bk_tx_cd.prtry.cd = "NIOB".to_string();
    ntry_test.amt.amt = "1000.00".to_string();
    ntry_test.cdt_dbt_ind = "CRDT".to_string();
    let mut nxdet: NtryDtlsAttribute = NtryDtlsAttribute::default();
    let field_86 = ":86:/NREF/NIOBNL56ASNB9999999999\n";
    DocumentMt940::parse_field_86(field_86, "NL56ASNB9999999999".to_string(), &mut nxdet);
    ntry_test.ntry_dtls = nxdet;
    DocumentMt940::parse_field_61((&field_61, &field_86), "EUR", &mut ntry_result);
    assert_eq!(ntry_test, ntry_result);
}
#[test]
fn test_parse_field_ntry(){
    let doc = "{1:F01GSCRUS30XXXX3614000002}{2:I940GSCRUS30XXXXN}{4:
                       :20:15486025400
                       :25:107048825
                       :28C:49/2
                       :60M:C250218USD2732398848,02
                       :61:2502180218D12,01NTRFGSLNVSHSUTKWDR//GI2504900007841
                       :86:/EREF/GSLNVSHSUTKWDR
                            /CRNM/GOLDMAN SACHS BANK USA
                            /CACT/107045863/CBIC/GSCRUS30XXX
                            /REMI/USD Payment to Vendor
                            /OPRP/Tag Payment
                       :61:2502180218D12,01NTRFGSOXWBAQYTF4VH//GI2504900005623
                       :86:/EREF/GSOXWBAQYTF4VH
                            /CRNM/GOLDMAN SACHS BANK USA
                            /CACT/107045863/CBIC/GSCRUS30XXX
                            /REMI/The maximum length of the block is 65 characters
                            /OPRP/Tag Payment}{5:-}".to_string();
    let result = DocumentMt940::parse_field_ntry(&doc, "USD").unwrap();
    let ntry_test: Vec<NtryAttribute> = vec![NtryAttribute { ntry_ref: 0,
        amt: AmtAttribute { ccy: "USD".to_string(), amt: "12.01".to_string() },
        cdt_dbt_ind: "DBIT".to_string(),
        sts: "".to_string(), bookg_dt: DtAttribute { dt: "2025-02-18".to_string() },
        val_dt: DtAttribute { dt: "2025-02-18".to_string() }, acct_svcr_ref: "".to_string(),
        bk_tx_cd: BxTxCdAttribute { domn: DomnAttribute { cd: "".to_string(),
            fmly: FmlyAttribute { cd: "".to_string(), sub_fmly_cd: "".to_string() } },
            prtry: PrtryAttribute { cd: "NTRF".to_string(), issr: "".to_string() } },
        addtl_inf_ind: AddtlTxInfAtttribute { msg_nm_id: "".to_string() },
        ntry_dtls: NtryDtlsAttribute { btch: BtchAttribute {
            nb_of_txs: 0 }, tx_dtls: vec![TxDtlsAttribute {
            refs: EndToEndIdAttribute { pmt_inf_id: "".to_string(),
                instr_id: "".to_string(), end_to_end_id: "GSLNVSHSUTKWDR".to_string(),
                tx_id: "".to_string(), prtry: PrtryDetAttribute {
                    tp: "".to_string(), refdt: "".to_string() } }, amt_dtls: TxAmtAttribute {
                end_to_end_id: "".to_string(), instd_amt: PrtryAmtAttribute {
                    tp: "".to_string(), amt: AmtAttribute { ccy: "".to_string(), amt: "".to_string() },
                    ccy_xchg: CcyXchgAttribute { src_ccy: "".to_string(),
                        trgt_ccy: "".to_string(), unit_ccy: "".to_string(), xchg_rate: "".to_string() } },
                tx_amt: PrtryAmtAttribute { tp: "".to_string(), amt: AmtAttribute {
                    ccy: "".to_string(), amt: "".to_string() }, ccy_xchg: CcyXchgAttribute {
                    src_ccy: "".to_string(), trgt_ccy: "".to_string(), unit_ccy: "".to_string(),
                    xchg_rate: "".to_string() } }, prtry_amt: PrtryAmtAttribute {
                    tp: "".to_string(), amt: AmtAttribute { ccy: "".to_string(), amt: "".to_string() },
                    ccy_xchg: CcyXchgAttribute { src_ccy: "".to_string(), trgt_ccy: "".to_string(),
                        unit_ccy: "".to_string(), xchg_rate: "".to_string() } }, amt: "".to_string() },
            bk_tx_cd: BxTxCdAttribute { domn: DomnAttribute { cd: "".to_string(),
                fmly: FmlyAttribute { cd: "".to_string(), sub_fmly_cd: "".to_string() } },
                prtry: PrtryAttribute { cd: "".to_string(), issr: "".to_string() } },
            rltd_pties: RltdPtiesAttribute { dbtr: DbtrAttribute {
                id: PrvtIdAttribute { othr: IdDtldAttribute { id: "".to_string() } },
                nm: "".to_string(), pstl_adr: PostalAddressAttribute { strt_nm: "".to_string(),
                    bldg_nb: "".to_string(), pst_cd: "".to_string(), twn_nm: "".to_string(), ctry: "".to_string(),
                    adr_line: Vec::new() } }, dbtr_acct: IdTxDtlsAttribute {
                id: IdIbanAttribute { iban: "".to_string(), othr: OtherAttribute {
                    id: "".to_string(), schme_nm: ShemeNumberAttribute { cd: "".to_string() } } },
                other: IdDtldAttribute { id: "".to_string() } }, cdtr: CdtrAttribue {
                id: PrvtIdAttribute { othr: IdDtldAttribute { id: "".to_string() } },
                nm: "GOLDMAN".to_string(), pstl_adr: PostalAddressAttribute {
                    strt_nm: "".to_string(), bldg_nb: "".to_string(), pst_cd: "".to_string(), twn_nm: "".to_string(),
                    ctry: "".to_string(), adr_line: Vec::new() } }, cdtr_acct: IdTxDtlsAttribute {
                id: IdIbanAttribute { iban: "".to_string(), othr: OtherAttribute {
                    id: "".to_string(), schme_nm: ShemeNumberAttribute { cd: "".to_string() } } },
                other: IdDtldAttribute { id: "107045863".to_string() } } },
            rltd_agts: CdtrAgtAttribute { cdtr_agt: SvcrAttribute {
                fin_instn_id: FinInstIdAttribute { bic: "GSCRUS30XXX".to_string(),
                    nm: "".to_string(), pstl_adr: PostalAddressAttribute { strt_nm: "".to_string(),
                        bldg_nb: "".to_string(), pst_cd: "".to_string(), twn_nm: "".to_string(), ctry: "".to_string(),
                        adr_line: Vec::new() } } }, dbtr_agt: SvcrAttribute {
                fin_instn_id: FinInstIdAttribute { bic: "".to_string(), nm: "".to_string(),
                    pstl_adr: PostalAddressAttribute { strt_nm: "".to_string(),
                        bldg_nb: "".to_string(), pst_cd: "".to_string(), twn_nm: "".to_string(), ctry: "".to_string(),
                        adr_line: Vec::new() } } } }, rmt_inf: RmtInfAttribute {
                ustrd: vec!["USD".to_string()], strd: StrdAttribute { cdtr_ref_inf: CdtrRefInfAttribute {
                    tp: CdOrPrtryAttribute { cd_or_prtry: CdAttribute { cd: "".to_string() } },
                    ref_cdtr: "".to_string() } } }, rltd_dts: RltdDtsAttribute { accptnc_dt_tm: "".to_string() },
            addtl_tx_inf: "Tag".to_string() }] } }, NtryAttribute { ntry_ref: 0,
        amt: AmtAttribute { ccy: "USD".to_string(), amt: "12.01".to_string() }, cdt_dbt_ind: "DBIT".to_string(),
        sts: "".to_string(), bookg_dt: DtAttribute { dt: "2025-02-18".to_string() },
        val_dt: DtAttribute { dt: "2025-02-18".to_string() }, acct_svcr_ref: "".to_string(),
        bk_tx_cd: BxTxCdAttribute { domn: DomnAttribute { cd: "".to_string(),
            fmly: FmlyAttribute { cd: "".to_string(), sub_fmly_cd: "".to_string() } },
            prtry: PrtryAttribute { cd: "NTRF".to_string(), issr: "".to_string() } },
        addtl_inf_ind: AddtlTxInfAtttribute { msg_nm_id: "".to_string() },
        ntry_dtls: NtryDtlsAttribute { btch: BtchAttribute { nb_of_txs: 0 },
            tx_dtls: vec![TxDtlsAttribute { refs: EndToEndIdAttribute {
                pmt_inf_id: "".to_string(), instr_id: "".to_string(), end_to_end_id: "GSOXWBAQYTF4VH".to_string(),
                tx_id: "".to_string(), prtry: PrtryDetAttribute { tp: "".to_string(), refdt: "".to_string() } },
                amt_dtls: TxAmtAttribute { end_to_end_id: "".to_string(),
                    instd_amt: PrtryAmtAttribute {
                    tp: "".to_string(), amt: AmtAttribute { ccy: "".to_string(), amt: "".to_string() },
                    ccy_xchg: CcyXchgAttribute { src_ccy: "".to_string(), trgt_ccy: "".to_string(),
                        unit_ccy: "".to_string(), xchg_rate: "".to_string() } }, tx_amt: PrtryAmtAttribute {
                    tp: "".to_string(), amt: AmtAttribute { ccy: "".to_string(), amt: "".to_string() },
                    ccy_xchg: CcyXchgAttribute { src_ccy: "".to_string(), trgt_ccy: "".to_string(),
                        unit_ccy: "".to_string(), xchg_rate: "".to_string() } }, prtry_amt: PrtryAmtAttribute {
                    tp: "".to_string(), amt: AmtAttribute { ccy: "".to_string(), amt: "".to_string() },
                    ccy_xchg: CcyXchgAttribute { src_ccy: "".to_string(), trgt_ccy: "".to_string(),
                        unit_ccy: "".to_string(), xchg_rate: "".to_string() } }, amt: "".to_string() },
                bk_tx_cd: BxTxCdAttribute { domn: DomnAttribute { cd: "".to_string(),
                    fmly: FmlyAttribute { cd: "".to_string(), sub_fmly_cd: "".to_string() } }, prtry:
                PrtryAttribute { cd: "".to_string(), issr: "".to_string() } }, rltd_pties: RltdPtiesAttribute {
                    dbtr: DbtrAttribute { id: PrvtIdAttribute { othr: IdDtldAttribute {
                        id: "".to_string() } }, nm: "".to_string(), pstl_adr: PostalAddressAttribute {
                        strt_nm: "".to_string(), bldg_nb: "".to_string(), pst_cd: "".to_string(),
                        twn_nm: "".to_string(), ctry: "".to_string(), adr_line: Vec::new() } }, dbtr_acct: IdTxDtlsAttribute {
                        id: IdIbanAttribute { iban: "".to_string(), othr: OtherAttribute {
                            id: "".to_string(), schme_nm: ShemeNumberAttribute { cd: "".to_string() } } },
                        other: IdDtldAttribute { id: "".to_string() } }, cdtr: CdtrAttribue {
                        id: PrvtIdAttribute { othr: IdDtldAttribute { id: "".to_string() } },
                        nm: "GOLDMAN".to_string(), pstl_adr: PostalAddressAttribute { strt_nm: "".to_string(),
                            bldg_nb: "".to_string(), pst_cd: "".to_string(),
                            twn_nm: "".to_string(), ctry: "".to_string(), adr_line: Vec::new() } },
                    cdtr_acct: IdTxDtlsAttribute { id: IdIbanAttribute { iban: "".to_string(),
                        othr: OtherAttribute { id: "".to_string(), schme_nm: ShemeNumberAttribute {
                            cd: "".to_string() } } }, other: IdDtldAttribute { id: "107045863".to_string() } } },
                rltd_agts: CdtrAgtAttribute { cdtr_agt: SvcrAttribute {
                    fin_instn_id: FinInstIdAttribute { bic: "GSCRUS30XXX".to_string(),
                        nm: "".to_string(), pstl_adr: PostalAddressAttribute { strt_nm: "".to_string(),
                            bldg_nb: "".to_string(), pst_cd: "".to_string(),
                            twn_nm: "".to_string(), ctry: "".to_string(),
                            adr_line: Vec::new() } } }, dbtr_agt: SvcrAttribute {
                    fin_instn_id: FinInstIdAttribute { bic: "".to_string(), nm: "".to_string(),
                        pstl_adr: PostalAddressAttribute { strt_nm: "".to_string(),
                            bldg_nb: "".to_string(), pst_cd: "".to_string(), twn_nm: "".to_string(), ctry: "".to_string(),
                            adr_line: Vec::new() } } } }, rmt_inf: RmtInfAttribute {
                    ustrd: vec!["The".to_string()], strd: StrdAttribute { cdtr_ref_inf: CdtrRefInfAttribute {
                        tp: CdOrPrtryAttribute { cd_or_prtry: CdAttribute { cd: "".to_string() } },
                        ref_cdtr: "".to_string() } } }, rltd_dts: RltdDtsAttribute { accptnc_dt_tm: "".to_string() },
                addtl_tx_inf: "Tag".to_string() }] } }];
    assert_eq!(ntry_test, result);
}
#[test]
fn test_parse_field_foo(){
    let mut result = BkToCstmrStmt::default();
    let document = ":20:15486025400
                           :25:107048825
                           :28C:49/2
                           :60M:C250218USD2732398848,02".to_string();
    DocumentMt940::parse_field_foo(&document, &mut result);
    let test = BkToCstmrStmt { grp_hdr: HeaderAttribute {
        msg_id: "".to_string(), cre_dt_tm: "".to_string() }, stmt: StatementAttribute {
        id: "".to_string(), elctrnc_seq_nb: "49".to_string(), lgl_seq_nb: "2".to_string(),
        cre_dt_tm: "".to_string(), fr_to_dt: FromToDtAttribute {
            fr_dt_tm: "".to_string(), to_dt_tm: "".to_string() },
        acct: AcctAttribute { id: IdIbanAttribute {
            iban: "".to_string(), othr: OtherAttribute {
                id: "".to_string(), schme_nm: ShemeNumberAttribute {
                    cd: "".to_string() } } }, ccy: "".to_string(),
            nm: "".to_string(), ownr: OwnerAttribute { nm: "".to_string(),
                pstl_adr: PostalAddressAttribute {
                    strt_nm: "".to_string(), bldg_nb: "".to_string(),
                    pst_cd: "".to_string(), twn_nm: "".to_string(),
                    ctry: "".to_string(), adr_line: Vec::new() },
                bldg_nb: 0, pst_cd: 0,
                twn_nm: "".to_string(), ctry: "".to_string(),
                id: IdAttribute {
                    org_id: OrgIdAttribute {
                        othr: OtherAttribute { id: "107048825".to_string(),
                            schme_nm: ShemeNumberAttribute {
                                cd: "".to_string() } } } } },
            svcr: SvcrAttribute { fin_instn_id: FinInstIdAttribute {
                bic: "".to_string(), nm: "".to_string(), pstl_adr: PostalAddressAttribute {
                    strt_nm: "".to_string(), bldg_nb: "".to_string(), pst_cd: "".to_string(),
                    twn_nm: "".to_string(), ctry: "".to_string(), adr_line: Vec::new() },  } } },
        bal: vec![BalanceAttribute { tp: TpBalanceAttribute {
            cd_or_prtry: CdAttribute { cd: "OPAV".to_string() } },
            amt: AmtAttribute { ccy: "USD".to_string(), amt: "2732398848.02".to_string() },
            cdt_dbt_ind: "".to_string(), dt: DtAttribute { dt: "2025-02-18".to_string() }, cd: "C".to_string() }],
        txs_summry: TxsSummryAttribute {
            ttl_ntries: TtlNtriesAttribute {
                nb_of_ntries: "".to_string(), ttl_net_ntry_amt: "".to_string(),
                cdt_dbt_ind: "" .to_string()}, ttl_cdt_ntries: TtlCdtDbtNtriesAttribute {
                nb_of_ntries: 0, sum: "".to_string() },
            ttl_dbt_ntries: TtlCdtDbtNtriesAttribute {
                nb_of_ntries: 0, sum: "".to_string() } }, ntry: Vec::new() } };

       assert_eq!(test, result);
}
#[test]
fn test_parse_one_record(){
    let doc = "{1:F01GSCRUS30XXXX3614000002}{2:I940GSCRUS30XXXXN}{4:
                       :20:15486025400
                       :25:107048825
                       :28C:49/2
                       :60M:C250218USD2732398848,02
                       :61:2502180218D12,01NTRFGSLNVSHSUTKWDR//GI2504900007841
                       :86:/EREF/GSLNVSHSUTKWDR
                            /CRNM/GOLDMAN SACHS BANK USA
                            /CACT/107045863/CBIC/GSCRUS30XXX
                            /REMI/USD Payment to Vendor
                            /OPRP/Tag Payment
                       :61:2502180218D12,01NTRFGSOXWBAQYTF4VH//GI2504900005623
                       :86:/EREF/GSOXWBAQYTF4VH
                            /CRNM/GOLDMAN SACHS BANK USA
                            /CACT/107045863/CBIC/GSCRUS30XXX
                            /REMI/The maximum length of the block is 65 characters
                            /OPRP/Tag Payment}{5:-}".to_string();
    let result = DocumentMt940::parse_one_record(&doc).unwrap();
    let test = BkToCstmrStmt { grp_hdr: HeaderAttribute {
        msg_id: "GSCRUS30XXXXN".to_string(), cre_dt_tm: "".to_string() },
        stmt: StatementAttribute { id: "GSCRUS30XXXXN-940".to_string(),
            elctrnc_seq_nb: "49".to_string(), lgl_seq_nb: "2".to_string(), cre_dt_tm: "".to_string(),
            fr_to_dt: FromToDtAttribute { fr_dt_tm: "".to_string(), to_dt_tm: "".to_string() },
            acct: AcctAttribute { id: IdIbanAttribute { iban: "".to_string(),
                othr: OtherAttribute { id: "".to_string(), schme_nm: ShemeNumberAttribute {
                    cd: "".to_string() } } }, ccy: "".to_string(), nm: "".to_string(),
                ownr: OwnerAttribute { nm: "".to_string(),
                    pstl_adr: PostalAddressAttribute {
                        strt_nm: "".to_string(), bldg_nb: "".to_string(),
                        pst_cd: "".to_string(), twn_nm: "".to_string(), ctry: "".to_string(),
                        adr_line: Vec::new() }, bldg_nb: 0,
                    pst_cd: 0, twn_nm: "".to_string(), ctry: "".to_string(),
                    id: IdAttribute { org_id: OrgIdAttribute {
                        othr: OtherAttribute { id: "107048825".to_string(),
                            schme_nm: ShemeNumberAttribute {
                                cd: "".to_string() } } } } },
                svcr: SvcrAttribute { fin_instn_id: FinInstIdAttribute {
                    bic: "GSCRUS30XXXX".to_string(), nm: "".to_string(),
                    pstl_adr: PostalAddressAttribute {
                        strt_nm: "".to_string(), bldg_nb: "".to_string(),
                        pst_cd: "".to_string(), twn_nm: "".to_string(),
                        ctry: "".to_string(), adr_line: Vec::new() } } } },
            bal: vec![BalanceAttribute { tp: TpBalanceAttribute {
                cd_or_prtry: CdAttribute { cd: "OPAV".to_string() } },
                amt: AmtAttribute { ccy: "USD".to_string(), amt: "2732398848.02".to_string() },
                cdt_dbt_ind: "".to_string(), dt: DtAttribute { dt: "2025-02-18".to_string() },
                cd: "C".to_string() }], txs_summry: TxsSummryAttribute {
                ttl_ntries: TtlNtriesAttribute { nb_of_ntries: "".to_string(),
                    ttl_net_ntry_amt: "".to_string(), cdt_dbt_ind: "".to_string() },
                ttl_cdt_ntries: TtlCdtDbtNtriesAttribute {
                    nb_of_ntries: 0, sum: "".to_string() },
                ttl_dbt_ntries: TtlCdtDbtNtriesAttribute {
                    nb_of_ntries: 0, sum: "".to_string() } },
            ntry: vec![NtryAttribute { ntry_ref: 0,
                amt: AmtAttribute { ccy: "USD".to_string(), amt: "12.01".to_string() },
                cdt_dbt_ind: "DBIT".to_string(), sts: "".to_string(), bookg_dt: DtAttribute {
                    dt: "2025-02-18".to_string() }, val_dt: DtAttribute { dt: "2025-02-18".to_string() },
                acct_svcr_ref: "".to_string(), bk_tx_cd: BxTxCdAttribute {
                    domn: DomnAttribute { cd: "".to_string(), fmly: FmlyAttribute {
                        cd: "".to_string(), sub_fmly_cd: "".to_string() } },
                    prtry: PrtryAttribute { cd: "NTRF".to_string(), issr: "".to_string() } },
                addtl_inf_ind: AddtlTxInfAtttribute { msg_nm_id: "".to_string() },
                ntry_dtls: NtryDtlsAttribute { btch: BtchAttribute {
                    nb_of_txs: 0 }, tx_dtls: vec![TxDtlsAttribute {
                    refs: EndToEndIdAttribute { pmt_inf_id: "".to_string(),
                        instr_id: "".to_string(), end_to_end_id: "GSLNVSHSUTKWDR".to_string(),
                        tx_id: "".to_string(), prtry: PrtryDetAttribute { tp: "".to_string(),
                            refdt: "".to_string() } }, amt_dtls: TxAmtAttribute {
                        end_to_end_id: "".to_string(), instd_amt: PrtryAmtAttribute {
                            tp: "".to_string(), amt: AmtAttribute { ccy: "".to_string(), amt: "".to_string() },
                            ccy_xchg: CcyXchgAttribute { src_ccy: "".to_string(),
                                trgt_ccy: "".to_string(), unit_ccy: "".to_string(), xchg_rate: "".to_string() } },
                        tx_amt: PrtryAmtAttribute { tp: "".to_string(), amt: AmtAttribute {
                            ccy: "".to_string(), amt: "".to_string() }, ccy_xchg: CcyXchgAttribute {
                            src_ccy: "".to_string(), trgt_ccy: "".to_string(), unit_ccy: "".to_string(),
                            xchg_rate: "".to_string() } }, prtry_amt: PrtryAmtAttribute {
                            tp: "".to_string(), amt: AmtAttribute { ccy: "".to_string(), amt: "".to_string() },
                            ccy_xchg: CcyXchgAttribute { src_ccy: "".to_string(),
                                trgt_ccy: "".to_string(), unit_ccy: "".to_string(), xchg_rate: "".to_string() } },
                        amt: "".to_string() }, bk_tx_cd: BxTxCdAttribute { domn: DomnAttribute {
                        cd: "".to_string(), fmly: FmlyAttribute { cd: "".to_string(), sub_fmly_cd: "".to_string() } },
                        prtry: PrtryAttribute { cd: "".to_string(), issr: "".to_string() } },
                    rltd_pties: RltdPtiesAttribute { dbtr: DbtrAttribute {
                        id: PrvtIdAttribute { othr: IdDtldAttribute {
                            id: "".to_string() } }, nm: "".to_string(), pstl_adr: PostalAddressAttribute {
                            strt_nm: "".to_string(), bldg_nb: "".to_string(), pst_cd: "".to_string(), twn_nm: "".to_string(),
                            ctry: "".to_string(), adr_line: Vec::new() } }, dbtr_acct: IdTxDtlsAttribute {
                        id: IdIbanAttribute { iban: "".to_string(), othr: OtherAttribute { id: "".to_string(),
                            schme_nm: ShemeNumberAttribute { cd: "".to_string() } } },
                        other: IdDtldAttribute { id: "".to_string() } }, cdtr: CdtrAttribue {
                        id: PrvtIdAttribute { othr: IdDtldAttribute { id: "".to_string() } },
                        nm: "GOLDMAN".to_string(), pstl_adr: PostalAddressAttribute { strt_nm: "".to_string(),
                            bldg_nb: "".to_string(), pst_cd: "".to_string(), twn_nm: "".to_string(),
                            ctry: "".to_string(), adr_line: Vec::new()} },
                        cdtr_acct: IdTxDtlsAttribute { id: IdIbanAttribute { iban: "".to_string(),
                            othr: OtherAttribute { id: "".to_string(), schme_nm: ShemeNumberAttribute {
                                cd: "".to_string() } } }, other: IdDtldAttribute { id: "107045863".to_string() } } },
                    rltd_agts: CdtrAgtAttribute { cdtr_agt: SvcrAttribute { fin_instn_id:
                    FinInstIdAttribute { bic: "GSCRUS30XXX".to_string(), nm: "".to_string(),
                        pstl_adr: PostalAddressAttribute { strt_nm: "".to_string(),
                            bldg_nb: "".to_string(), pst_cd: "".to_string(), twn_nm: "".to_string(), ctry: "".to_string(),
                            adr_line: Vec::new() } } }, dbtr_agt: SvcrAttribute {
                        fin_instn_id: FinInstIdAttribute { bic: "".to_string(), nm: "".to_string(),
                            pstl_adr: PostalAddressAttribute { strt_nm: "".to_string(),
                                bldg_nb: "".to_string(), pst_cd: "".to_string(), twn_nm: "".to_string(),
                                ctry: "".to_string(),
                                adr_line: Vec::new() } } } }, rmt_inf: RmtInfAttribute {
                        ustrd: vec!["USD".to_string()], strd: StrdAttribute { cdtr_ref_inf:
                        CdtrRefInfAttribute { tp: CdOrPrtryAttribute { cd_or_prtry:
                        CdAttribute { cd: "".to_string() } }, ref_cdtr: "".to_string() } } },
                    rltd_dts: RltdDtsAttribute { accptnc_dt_tm: "".to_string() },
                    addtl_tx_inf: "Tag".to_string() }] } }, NtryAttribute { ntry_ref: 0,
                amt: AmtAttribute { ccy: "USD".to_string(), amt: "12.01".to_string() }, cdt_dbt_ind:
                "DBIT".to_string(), sts: "".to_string(), bookg_dt: DtAttribute { dt: "2025-02-18".to_string() },
                val_dt: DtAttribute { dt: "2025-02-18".to_string() }, acct_svcr_ref: "".to_string(),
                bk_tx_cd: BxTxCdAttribute { domn: DomnAttribute { cd: "".to_string(),
                    fmly: FmlyAttribute { cd: "".to_string(), sub_fmly_cd: "".to_string() } },
                    prtry: PrtryAttribute { cd: "NTRF".to_string(), issr: "".to_string() } },
                addtl_inf_ind: AddtlTxInfAtttribute { msg_nm_id: "".to_string() },
                ntry_dtls: NtryDtlsAttribute { btch: BtchAttribute {
                    nb_of_txs: 0 }, tx_dtls: vec![TxDtlsAttribute {
                    refs: EndToEndIdAttribute { pmt_inf_id: "".to_string(),
                        instr_id: "".to_string(), end_to_end_id: "GSOXWBAQYTF4VH".to_string(),
                        tx_id: "".to_string(), prtry: PrtryDetAttribute { tp: "".to_string(),
                            refdt: "".to_string() } }, amt_dtls: TxAmtAttribute {
                        end_to_end_id: "".to_string(), instd_amt: PrtryAmtAttribute {
                            tp: "".to_string(), amt: AmtAttribute { ccy: "".to_string(), amt: "".to_string() },
                            ccy_xchg: CcyXchgAttribute { src_ccy: "".to_string(),
                                trgt_ccy: "".to_string(), unit_ccy: "".to_string(),
                                xchg_rate: "".to_string() } },
                        tx_amt: PrtryAmtAttribute { tp: "".to_string(), amt: AmtAttribute {
                            ccy: "".to_string(), amt: "".to_string() }, ccy_xchg: CcyXchgAttribute {
                            src_ccy: "".to_string(), trgt_ccy: "".to_string(),
                            unit_ccy: "".to_string(), xchg_rate: "".to_string() } },
                        prtry_amt: PrtryAmtAttribute { tp: "".to_string(), amt: AmtAttribute {
                            ccy: "".to_string(), amt: "".to_string() }, ccy_xchg: CcyXchgAttribute {
                            src_ccy: "".to_string(), trgt_ccy: "".to_string(),
                            unit_ccy: "".to_string(), xchg_rate: "".to_string() } },
                        amt: "".to_string() }, bk_tx_cd: BxTxCdAttribute { domn: DomnAttribute {
                        cd: "".to_string(), fmly: FmlyAttribute { cd: "".to_string(), sub_fmly_cd: "".to_string() } },
                        prtry: PrtryAttribute { cd: "".to_string(), issr: "".to_string() } },
                    rltd_pties: RltdPtiesAttribute { dbtr: DbtrAttribute {
                        id: PrvtIdAttribute { othr: IdDtldAttribute { id: "".to_string() } },
                        nm: "".to_string(), pstl_adr: PostalAddressAttribute { strt_nm: "".to_string(),
                            bldg_nb: "".to_string(), pst_cd: "".to_string(), twn_nm: "".to_string(), ctry: "".to_string(),
                            adr_line: Vec::new()} }, dbtr_acct: IdTxDtlsAttribute {
                        id: IdIbanAttribute { iban: "".to_string(), othr: OtherAttribute {
                            id: "".to_string(), schme_nm: ShemeNumberAttribute { cd: "".to_string() } } },
                        other: IdDtldAttribute { id: "".to_string() } }, cdtr: CdtrAttribue {
                        id: PrvtIdAttribute { othr: IdDtldAttribute { id: "".to_string() } },
                        nm: "GOLDMAN".to_string(), pstl_adr: PostalAddressAttribute {
                            strt_nm: "".to_string(), bldg_nb: "".to_string(),
                            pst_cd: "".to_string(), twn_nm: "".to_string(),
                            ctry: "".to_string(), adr_line: Vec::new() } }, cdtr_acct: IdTxDtlsAttribute {
                        id: IdIbanAttribute { iban: "".to_string(), othr: OtherAttribute { id: "".to_string(),
                            schme_nm: ShemeNumberAttribute { cd: "".to_string() } } },
                        other: IdDtldAttribute { id: "107045863".to_string() } } },
                    rltd_agts: CdtrAgtAttribute { cdtr_agt: SvcrAttribute {
                        fin_instn_id: FinInstIdAttribute { bic: "GSCRUS30XXX".to_string(),
                            nm: "".to_string(),
                            pstl_adr: PostalAddressAttribute { strt_nm: "".to_string(),
                                bldg_nb: "".to_string(), pst_cd: "".to_string(),
                                twn_nm: "".to_string(), ctry: "".to_string(),
                                adr_line: Vec::new() } } }, dbtr_agt: SvcrAttribute {
                        fin_instn_id: FinInstIdAttribute { bic: "".to_string(), nm: "".to_string(),
                            pstl_adr: PostalAddressAttribute { strt_nm: "".to_string(),
                                bldg_nb: "".to_string(), pst_cd: "".to_string(),
                                twn_nm: "".to_string(), ctry: "".to_string(),
                                adr_line: Vec::new() } } } }, rmt_inf: RmtInfAttribute {
                        ustrd: vec!["The".to_string()], strd: StrdAttribute { cdtr_ref_inf:
                        CdtrRefInfAttribute { tp: CdOrPrtryAttribute {
                            cd_or_prtry: CdAttribute { cd: "".to_string() } },
                            ref_cdtr: "".to_string() } } },
                    rltd_dts: RltdDtsAttribute { accptnc_dt_tm: "".to_string() },
                    addtl_tx_inf: "Tag".to_string() }] } }] } };
    assert_eq!(test, result);
}
#[test]
fn test_extract_field_6x_mt940(){
    let document = BkToCstmrStmt { grp_hdr: HeaderAttribute {
        msg_id: "GSCRUS30XXXXN".to_string(), cre_dt_tm: "".to_string() },
        stmt: StatementAttribute { id: "GSCRUS30XXXXN-940".to_string(),
            elctrnc_seq_nb: "49".to_string(), lgl_seq_nb: "2".to_string(), cre_dt_tm: "".to_string(),
            fr_to_dt: FromToDtAttribute { fr_dt_tm: "".to_string(), to_dt_tm: "".to_string() },
            acct: AcctAttribute { id: IdIbanAttribute { iban: "".to_string(),
                othr: OtherAttribute { id: "".to_string(),
                    schme_nm: ShemeNumberAttribute { cd: "".to_string() } } },
                ccy: "".to_string(), nm: "".to_string(), ownr: OwnerAttribute {
                    nm: "".to_string(), pstl_adr: PostalAddressAttribute {
                        strt_nm: "".to_string(),
                        bldg_nb: "".to_string(),
                        pst_cd: "".to_string(),
                        twn_nm: "".to_string(),
                        ctry: "".to_string(),
                        adr_line: vec![],
                    }, bldg_nb: 0,
                    pst_cd: 0, twn_nm: "".to_string(), ctry: "".to_string(),
                    id: IdAttribute { org_id: OrgIdAttribute {
                        othr: OtherAttribute { id: "107048825".to_string(),
                            schme_nm: ShemeNumberAttribute {
                                cd: "".to_string() } } } } },
                svcr: SvcrAttribute { fin_instn_id: FinInstIdAttribute {
                    bic: "GSCRUS30XXXX".to_string(), nm: "".to_string(),
                    pstl_adr: Default::default(),
                } } },
            bal: vec![BalanceAttribute { tp: TpBalanceAttribute {
                cd_or_prtry: CdAttribute { cd: "OPAV".to_string() } },
                amt: AmtAttribute { ccy: "USD".to_string(), amt: "2732398848.02".to_string() },
                cdt_dbt_ind: "".to_string(),
                dt: DtAttribute { dt: "2025-02-18".to_string() }, cd: "C".to_string() }],
            txs_summry: TxsSummryAttribute { ttl_ntries: TtlNtriesAttribute {
                nb_of_ntries: "".to_string(), ttl_net_ntry_amt: "".to_string(),
                cdt_dbt_ind: "".to_string() }, ttl_cdt_ntries: TtlCdtDbtNtriesAttribute {
                nb_of_ntries: 0, sum: "".to_string() },
                ttl_dbt_ntries: TtlCdtDbtNtriesAttribute { nb_of_ntries: 0,
                    sum: "".to_string() } }, ntry: Vec::new()} };
    let mut result = String::new();
    DocumentMt940::extract_field_6x_mt940(&document, &mut result);
    assert_eq!(":60M:C250218USD2732398848,02\n".to_string(), result);
}
#[test]
fn test_extract_field_61_86_mt940(){
    let vec_camt = vec![NtryAttribute { ntry_ref: 0,
                amt: AmtAttribute { ccy: "USD".to_string(), amt: "12.01".to_string() },
                cdt_dbt_ind: "DBIT".to_string(), sts: "".to_string(), bookg_dt: DtAttribute {
                    dt: "2025-02-18".to_string() }, val_dt: DtAttribute { dt: "2025-02-18".to_string() },
                acct_svcr_ref: "".to_string(), bk_tx_cd: BxTxCdAttribute {
                    domn: DomnAttribute { cd: "".to_string(), fmly: FmlyAttribute {
                        cd: "".to_string(), sub_fmly_cd: "".to_string() } },
                    prtry: PrtryAttribute { cd: "NTRF".to_string(), issr: "".to_string() } },
                addtl_inf_ind: AddtlTxInfAtttribute { msg_nm_id: "".to_string() },
                ntry_dtls: NtryDtlsAttribute { btch: BtchAttribute {
                    nb_of_txs: 0 }, tx_dtls: vec![TxDtlsAttribute {
                    refs: EndToEndIdAttribute { pmt_inf_id: "".to_string(),
                        instr_id: "".to_string(), end_to_end_id: "GSLNVSHSUTKWDR".to_string(),
                        tx_id: "".to_string(), prtry: PrtryDetAttribute { tp: "".to_string(),
                            refdt: "".to_string() } }, amt_dtls: TxAmtAttribute {
                        end_to_end_id: "".to_string(), instd_amt: PrtryAmtAttribute {
                            tp: "".to_string(), amt: AmtAttribute { ccy: "".to_string(), amt: "".to_string() },
                            ccy_xchg: CcyXchgAttribute { src_ccy: "".to_string(),
                                trgt_ccy: "".to_string(), unit_ccy: "".to_string(), xchg_rate: "".to_string() } },
                        tx_amt: PrtryAmtAttribute { tp: "".to_string(), amt: AmtAttribute {
                            ccy: "".to_string(), amt: "".to_string() }, ccy_xchg: CcyXchgAttribute {
                            src_ccy: "".to_string(), trgt_ccy: "".to_string(), unit_ccy: "".to_string(),
                            xchg_rate: "".to_string() } }, prtry_amt: PrtryAmtAttribute {
                            tp: "".to_string(), amt: AmtAttribute { ccy: "".to_string(), amt: "".to_string() },
                            ccy_xchg: CcyXchgAttribute { src_ccy: "".to_string(),
                                trgt_ccy: "".to_string(), unit_ccy: "".to_string(), xchg_rate: "".to_string() } },
                        amt: "".to_string() }, bk_tx_cd: BxTxCdAttribute { domn: DomnAttribute {
                        cd: "".to_string(), fmly: FmlyAttribute { cd: "".to_string(), sub_fmly_cd: "".to_string() } },
                        prtry: PrtryAttribute { cd: "".to_string(), issr: "".to_string() } },
                    rltd_pties: RltdPtiesAttribute { dbtr: DbtrAttribute {
                        id: PrvtIdAttribute { othr: IdDtldAttribute {
                            id: "".to_string() } }, nm: "".to_string(), pstl_adr: PostalAddressAttribute {
                            strt_nm: "".to_string(), bldg_nb: "".to_string(), pst_cd: "".to_string(), twn_nm: "".to_string(),
                            ctry: "".to_string(), adr_line: Vec::new() } }, dbtr_acct: IdTxDtlsAttribute {
                        id: IdIbanAttribute { iban: "".to_string(), othr: OtherAttribute { id: "".to_string(),
                            schme_nm: ShemeNumberAttribute { cd: "".to_string() } } },
                        other: IdDtldAttribute { id: "".to_string() } }, cdtr: CdtrAttribue {
                        id: PrvtIdAttribute { othr: IdDtldAttribute { id: "".to_string() } },
                        nm: "GOLDMAN".to_string(), pstl_adr: PostalAddressAttribute { strt_nm: "".to_string(),
                            bldg_nb: "".to_string(), pst_cd: "".to_string(), twn_nm: "".to_string(),
                            ctry: "".to_string(), adr_line: Vec::new()} },
                        cdtr_acct: IdTxDtlsAttribute { id: IdIbanAttribute { iban: "".to_string(),
                            othr: OtherAttribute { id: "".to_string(), schme_nm: ShemeNumberAttribute {
                                cd: "".to_string() } } }, other: IdDtldAttribute { id: "107045863".to_string() } } },
                    rltd_agts: CdtrAgtAttribute { cdtr_agt: SvcrAttribute { fin_instn_id:
                    FinInstIdAttribute { bic: "GSCRUS30XXX".to_string(), nm: "".to_string(),
                        pstl_adr: PostalAddressAttribute { strt_nm: "".to_string(),
                            bldg_nb: "".to_string(), pst_cd: "".to_string(), twn_nm: "".to_string(), ctry: "".to_string(),
                            adr_line: Vec::new() } } }, dbtr_agt: SvcrAttribute {
                        fin_instn_id: FinInstIdAttribute { bic: "".to_string(), nm: "".to_string(),
                            pstl_adr: PostalAddressAttribute { strt_nm: "".to_string(),
                                bldg_nb: "".to_string(), pst_cd: "".to_string(), twn_nm: "".to_string(),
                                ctry: "".to_string(),
                                adr_line: Vec::new() } } } }, rmt_inf: RmtInfAttribute {
                        ustrd: vec!["USD".to_string()], strd: StrdAttribute { cdtr_ref_inf:
                        CdtrRefInfAttribute { tp: CdOrPrtryAttribute { cd_or_prtry:
                        CdAttribute { cd: "".to_string() } }, ref_cdtr: "".to_string() } } },
                    rltd_dts: RltdDtsAttribute { accptnc_dt_tm: "".to_string() },
                    addtl_tx_inf: "Tag".to_string() }] } }];
    let mut result = String::new();
    let test = ":61:2502180218D12,01NTRFGSLNVSHSUTKWDR \n:86:/NREF/GSLNVSHSUTKWDR\n\
    /CRNM/GOLDMAN\n/CACT/107045863\n/CBIC/GSCRUS30XXX\n/REMI/USD/\n/OPRP/Tag\n";
    DocumentMt940::extract_field_61_86_mt940(&vec_camt, &mut result);
    assert_eq!(test, result);
}

#[test]
fn two_entry_record_reads_as_debits() {
    let record = DocumentMt940::parse_one_record(SAMPLE).unwrap();
    assert_eq!(record.stmt.acct.svcr.fin_instn_id.bic, "GSCRUS30XXXX");
    assert_eq!(record.grp_hdr.msg_id, "GSCRUS30XXXXN");
    assert_eq!(record.stmt.ntry.len(), 2);
    for ntry in &record.stmt.ntry {
        assert_eq!(ntry.cdt_dbt_ind, "DBIT");
        assert_eq!(ntry.amt.amt, "12.01");
        assert_eq!(ntry.amt.ccy, "USD");
        assert_eq!(ntry.bookg_dt.dt, "2025-02-18");
        assert_eq!(ntry.val_dt.dt, "2025-02-18");
    }
    assert_eq!(record.stmt.ntry[0].ntry_dtls.tx_dtls[0].refs.end_to_end_id, "GSLNVSHSUTKWDR");
}

#[test]
fn mt940_input_always_fails() {
    match DocumentMt940::from_read(SAMPLE) {
        Err(ParserError::BadInputFormatFile(_)) => {}
        _ => panic!("reading MT940 input must fail"),
    }
    assert!(matches!(DocumentMt940::from_read(""), Err(ParserError::BadInputFormatFile(_))));
}

#[test]
fn mt940_output_of_parsed_record() {
    let record = DocumentMt940::parse_one_record(SAMPLE).unwrap();
    let document = DocumentMt940 { document: vec![record] };
    let mut out = String::new();
    document.write_to(&mut out);
    let expected = "{1:F01GSCRUS30XXXX}\n{2:GSCRUS30XXXXN}\n{3:}\n{4:\n:20:GSCRUS30XXXXN\n\
        :25:107048825\n:28C:49/2\n:60M:C250218USD2732398848,02\n\
        :61:2502180218D12,01NTRFGSLNVSHSUTKWDR \n:86:/NREF/GSLNVSHSUTKWDR\n/CRNM/GOLDMAN\n\
        /CACT/107045863\n/CBIC/GSCRUS30XXX\n/REMI/USD/\n/OPRP/Tag\n\
        :61:2502180218D12,01NTRFGSOXWBAQYTF4VH \n:86:/NREF/GSOXWBAQYTF4VH\n/CRNM/GOLDMAN\n\
        /CACT/107045863\n/CBIC/GSCRUS30XXX\n/REMI/The/\n/OPRP/Tag\n}\n{5:-}\n";
    assert_eq!(out, expected);
}

#[test]
fn mt940_output_of_no_statement_is_empty() {
    let document = DocumentMt940 { document: vec![] };
    let mut out = String::from("kept");
    document.write_to(&mut out);
    assert_eq!(out, "kept");
}

#[test]
fn date_expansion() {
    assert_eq!(DtAttribute::format_dt("250218").dt, "2025-02-18");
    assert_eq!(DtAttribute::format_dt("2502180218").dt, "2025-02-18");
    assert_eq!(DtAttribute::format_dt("25021").dt, "1979-01-01");
    assert_eq!(DtAttribute::format_dt("").dt, "1979-01-01");
    assert_eq!(DtAttribute::format_dt("ab0218").dt, "1979-01-01");
    assert_eq!(DtAttribute::format_dt("абвгде").dt, "1979-01-01");
}

#[test]
fn amount_substitution_both_ways() {
    let balance = DocumentMt940::parse_field_balance("C250218EUR1000,00").unwrap();
    assert_eq!(balance.amt.amt, "1000.00");
    assert_eq!(balance.amt.ccy, "EUR");
    assert_eq!(balance.cd, "C");
    let mut record = BkToCstmrStmt::default();
    let mut b = BalanceAttribute::default();
    b.tp.cd_or_prtry.cd = "CLBD".to_string();
    b.cd = "D".to_string();
    b.dt.dt = "2024-12-31".to_string();
    b.amt.ccy = "EUR".to_string();
    b.amt.amt = "1000.00".to_string();
    record.stmt.bal.push(b);
    let mut other = BalanceAttribute::default();
    other.tp.cd_or_prtry.cd = "XXXX".to_string();
    record.stmt.bal.push(other);
    let mut out = String::new();
    DocumentMt940::extract_field_6x_mt940(&record, &mut out);
    assert_eq!(out, ":62F:D241231EUR1000,00\n");
}

#[test]
fn balance_without_amount_is_none() {
    assert!(DocumentMt940::parse_field_balance("C250218EUR1000").is_none());
    assert!(DocumentMt940::parse_field_balance("").is_none());
}

#[test]
fn block_one_without_bic() {
    assert_eq!(DocumentMt940::parse_field_one("no address"), "UNKNOWN_BIC");
    assert_eq!(DocumentMt940::parse_field_one("F01ABC123"), "ABC12");
}

#[test]
fn unpaired_statement_lines_give_no_entries() {
    let text = ":61:2502180218D12,01NTRFREF1\n:";
    assert!(DocumentMt940::parse_field_ntry(text, "USD").is_none());
}

#[test]
fn record_start_without_end() {
    assert!(DocumentMt940::find_record("{1:}{5:-}{1:").is_none());
    assert_eq!(DocumentMt940::find_record("no records").unwrap(), vec![]);
}
