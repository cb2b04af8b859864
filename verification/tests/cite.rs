use marksmen::arxiv::{arxiv_query_url, normalize_arxiv_id, reference_from_arxiv};
use marksmen::web_records::{
    crossref_url, normalize_isbn, openlibrary_key, openlibrary_url, pubmed_abstract, pubmed_abstract_url,
    pubmed_summary_url, reference_from_crossref, reference_from_openlibrary, reference_from_pubmed, CrossrefAuthor,
    CrossrefWork, OpenLibraryBook, PubmedArticleId, PubmedAuthor, PubmedSummary,
};
use marksmen::cite::{initials, parse_author, Collection, Reference};
use marksmen::cite_export::{export_bibtex, export_ris};
use marksmen::cite_format::{format_apa, format_chicago, format_citation, format_ieee, format_mla, format_vancouver};
use marksmen::cite_import::{import_bibtex, import_ris, strip_bibtex_val, strip_jats};
use marksmen::sync::{library_hash, merge_sync_payloads, SyncPayload};

fn blank(id: &str) -> Reference {
    Reference {
        id: id.to_string(),
        reference_type: "Journal Article".to_string(),
        title: String::new(),
        authors: Vec::new(),
        abstract_text: String::new(),
        journal: String::new(),
        volume: String::new(),
        issue: String::new(),
        pages: String::new(),
        publisher: String::new(),
        edition: String::new(),
        doi: String::new(),
        pmid: String::new(),
        isbn: String::new(),
        issn: String::new(),
        url: String::new(),
        access_date: String::new(),
        language: String::new(),
        tags: Vec::new(),
        notes: String::new(),
        starred: false,
        read_status: false,
        pdf_path: None,
        year: String::new(),
        date_added: String::new(),
        date_modified: String::new(),
        collections: Vec::new(),
    }
}

fn study() -> Reference {
    let mut r = blank("s1");
    r.title = "A Study".to_string();
    r.authors = vec!["Smith, John".to_string(), "Doe, Jane Mary".to_string()];
    r.journal = "Nature".to_string();
    r.year = "2020".to_string();
    r.volume = "5".to_string();
    r.issue = "2".to_string();
    r.pages = "10-20".to_string();
    r.doi = "10.1/x".to_string();
    r.tags = vec!["ml".to_string()];
    r
}

fn chars(s: &str) -> Vec<char> {
    s.chars().collect()
}

#[test]
fn author_names_split_and_initials() {
    let (last, first) = parse_author(&chars("Smith, John"));
    assert_eq!((last.iter().collect::<String>(), first.iter().collect::<String>()), ("Smith".to_string(), "John".to_string()));
    let (last, first) = parse_author(&chars("Jane van Doe"));
    assert_eq!((last.iter().collect::<String>(), first.iter().collect::<String>()), ("Doe".to_string(), "Jane van".to_string()));
    let (last, first) = parse_author(&chars("Plato"));
    assert_eq!((last.iter().collect::<String>(), first.iter().collect::<String>()), ("Plato".to_string(), String::new()));
    assert_eq!(initials(&chars("John  Ronald Reuel")).iter().collect::<String>(), "J. R. R.");
}

#[test]
fn formats_each_style() {
    let r = study();
    assert_eq!(
        format_apa(&r),
        "Smith, J., & Doe, J. M. (2020).  A Study.  *Nature*, *5*(2), 10-20. https://doi.org/10.1/x"
    );
    assert_eq!(format_mla(&r), "Smith, John, et al.. \"A Study\" *Nature*, vol. 5, no. 2, 2020, pp. 10-20, doi:10.1/x.");
    assert_eq!(
        format_chicago(&r),
        "Smith, John, and Jane Mary Doe 2020 \"A Study\" *Nature* 5 (2): 10-20. https://doi.org/10.1/x"
    );
    assert_eq!(format_vancouver(&r), "Smith J, Doe JM. A Study. Nature. 2020;5(2):10-20.");
    assert_eq!(
        format_ieee(&r),
        "J. Smith and J. M. Doe, \"A Study\", *Nature*, vol. 5, no. 2, pp. 10-20, 2020, doi: 10.1/x"
    );
}

#[test]
fn apa_without_year_or_journal() {
    let mut r = blank("x");
    r.title = "Notes".to_string();
    r.authors = vec!["Ada Lovelace".to_string()];
    assert_eq!(format_apa(&r), "Lovelace, A. (n.d.).  Notes.");
}

#[test]
fn citation_style_names_ignore_case() {
    let r = study();
    assert_eq!(format_citation(r.clone(), "IEEE".to_string()), Ok(format_ieee(&r)));
    assert_eq!(format_citation(r.clone(), "apa".to_string()), Ok(format_apa(&r)));
    assert_eq!(
        format_citation(r, "Harvard".to_string()),
        Err("Unknown citation style: harvard".to_string())
    );
}

#[test]
fn ris_export_lists_nonempty_fields() {
    let out = export_ris(vec![study()]).unwrap();
    assert_eq!(
        out,
        "TY  - JOUR\nT1  - A Study\nAU  - Smith, John\nAU  - Doe, Jane Mary\nJO  - Nature\nPY  - 2020\nVL  - 5\nIS  - 2\nSP  - 10-20\nDO  - 10.1/x\nKW  - ml\nER  - \n\n"
    );
    let mut other = blank("o");
    other.reference_type = "Patent".to_string();
    assert_eq!(export_ris(vec![other]).unwrap(), "TY  - GEN\nT1  - \nER  - \n\n");
}

#[test]
fn bibtex_export_builds_key_and_fields() {
    let out = export_bibtex(vec![study()]).unwrap();
    assert_eq!(
        out,
        "@article{Smith2020,\n  title     = {A Study},\n  author    = {Smith, John and Doe, Jane Mary},\n  journal   = {Nature},\n  year      = {2020},\n  volume    = {5},\n  number    = {2},\n  pages     = {10--20},\n  doi       = {10.1/x},\n  keywords  = {ml},\n}\n\n"
    );
    let mut anon = blank("a");
    anon.reference_type = "Thesis".to_string();
    anon.year = "1999".to_string();
    assert_eq!(
        export_bibtex(vec![anon]).unwrap(),
        "@phdthesis{Unknown1999,\n  title     = {},\n  year      = {1999},\n}\n\n"
    );
}

#[test]
fn bibtex_values_and_jats_are_cleaned() {
    assert_eq!(strip_bibtex_val("{Deep Learning},"), "Deep Learning");
    assert_eq!(strip_bibtex_val(" \"Title\" ,,"), "Title");
    assert_eq!(strip_bibtex_val("2020,"), "2020");
    assert_eq!(
        strip_jats("<jats:p>Hello <b>world</b></jats:p> ").as_deref(),
        Some("Hello world")
    );
}

fn payload(device: &str, references: Vec<Reference>, collections: Vec<Collection>) -> SyncPayload {
    SyncPayload {
        device_id: device.to_string(),
        last_synced_at: String::new(),
        library_hash: String::new(),
        references,
        collections,
    }
}

#[test]
fn merge_keeps_newest_reference_and_unites_collections() {
    let mut old = blank("A");
    old.title = "Old Title".to_string();
    old.date_modified = "2025-01-01T00:00:00Z".to_string();
    let mut newer = blank("A");
    newer.title = "New Title".to_string();
    newer.date_modified = "2025-02-01T00:00:00Z".to_string();
    let other = blank("B");
    let local_col = Collection { id: "c1".to_string(), name: "Mine".to_string(), ref_ids: vec!["b".to_string(), "a".to_string()] };
    let remote_col = Collection { id: "c1".to_string(), name: "Theirs".to_string(), ref_ids: vec!["c".to_string(), "a".to_string()] };
    let extra = Collection { id: "c0".to_string(), name: "New".to_string(), ref_ids: vec!["z".to_string(), "y".to_string()] };
    let merged = merge_sync_payloads(
        payload("device1", vec![old.clone()], vec![local_col]),
        payload("device2", vec![other, newer], vec![remote_col, extra]),
    );
    assert_eq!(merged.device_id, "device1");
    assert_eq!(merged.references.len(), 2);
    assert_eq!(merged.references[0].id, "A");
    assert_eq!(merged.references[0].title, "New Title");
    assert_eq!(merged.references[1].id, "B");
    assert_eq!(merged.collections.len(), 2);
    assert_eq!(merged.collections[0].id, "c0");
    assert_eq!(merged.collections[0].ref_ids, vec!["z".to_string(), "y".to_string()]);
    assert_eq!(merged.collections[1].name, "Mine");
    assert_eq!(merged.collections[1].ref_ids, vec!["a".to_string(), "b".to_string(), "c".to_string()]);
    // An older remote record does not replace the local one.
    let kept = merge_sync_payloads(payload("d", vec![newer_clone()], vec![]), payload("e", vec![old], vec![]));
    assert_eq!(kept.references[0].title, "New Title");
}

fn newer_clone() -> Reference {
    let mut r = blank("A");
    r.title = "New Title".to_string();
    r.date_modified = "2025-02-01T00:00:00Z".to_string();
    r
}

#[test]
fn ris_import_reads_tagged_records() {
    let content = "TY  - JOUR\nT1  - A Study\nAU  - Smith, John\nAU  - Doe, Jane\nPY  - 2020/01/02\nSP  - 10\nEP  - 20\nSN  - 1234-5678\nSN  - 0306406152\nKW  - ml\nER  - \n\nTY  - BOOK\nTI  - Second\nXX  - ignored\n";
    let refs = import_ris(content.to_string()).unwrap();
    assert_eq!(refs.len(), 2);
    let r = &refs[0];
    assert_eq!(r.reference_type, "Journal Article");
    assert_eq!(r.title, "A Study");
    assert_eq!(r.authors, vec!["Smith, John".to_string(), "Doe, Jane".to_string()]);
    assert_eq!(r.year, "2020");
    assert_eq!(r.pages, "10-20");
    assert_eq!(r.issn, "1234-5678");
    assert_eq!(r.isbn, "0306406152");
    assert_eq!(r.tags, vec!["ml".to_string()]);
    assert!(!r.id.is_empty());
    assert_eq!(r.date_added, r.date_modified);
    assert_eq!(refs[1].reference_type, "Book");
    assert_eq!(refs[1].title, "Second");
    assert_ne!(refs[0].id, refs[1].id);
}

#[test]
fn bibtex_import_reads_entries_with_titles_or_authors() {
    let content = "@article{key1,\n  title = {Deep {L}earning},\n  author = {Smith, John and Doe, Jane},\n  year = {2020},\n  pages = {10--20},\n  keywords = {ml, ai, },\n}\n@misc{key2,\n  note = {nothing}\n}\n";
    let refs = import_bibtex(content.to_string()).unwrap();
    assert_eq!(refs.len(), 1);
    let r = &refs[0];
    assert_eq!(r.reference_type, "Journal Article");
    assert_eq!(r.title, "Deep Learning");
    assert_eq!(r.authors, vec!["Smith, John".to_string(), "Doe, Jane".to_string()]);
    assert_eq!(r.year, "2020");
    assert_eq!(r.pages, "10-20");
    assert_eq!(r.tags, vec!["ml".to_string(), "ai".to_string()]);
}

#[test]
fn blank_records_and_touch() {
    let mut r = Reference::blank();
    assert_eq!(r.reference_type, "Journal Article");
    assert!(r.title.is_empty() && r.authors.is_empty());
    assert_eq!(r.date_added, r.date_modified);
    let before = r.id.clone();
    r.touch();
    assert_eq!(r.id, before);
}

#[test]
fn test_merge_lww() {
    let mut ref1 = Reference::blank();
    ref1.id = "A".to_string();
    ref1.title = "Old Title".to_string();
    ref1.date_modified = "2025-01-01T00:00:00Z".to_string();

    let mut ref1_updated = Reference::blank();
    ref1_updated.id = "A".to_string();
    ref1_updated.title = "New Title".to_string();
    ref1_updated.date_modified = "2025-02-01T00:00:00Z".to_string();

    let mut ref2 = Reference::blank();
    ref2.id = "B".to_string();

    let local = payload("device1", vec![ref1], vec![]);
    let remote = payload("device2", vec![ref1_updated, ref2], vec![]);

    let merged = merge_sync_payloads(local, remote);
    assert_eq!(merged.references.len(), 2);

    let merged_ref1 = merged.references.iter().find(|r| r.id == "A").unwrap();
    assert_eq!(merged_ref1.title, "New Title"); // Remote wins

    // The library state (which the integrity hash is taken over) is deterministic
    let merged2 = merge_sync_payloads(
        payload("device1", vec![merged_ref1.clone()], vec![]),
        payload("device2", vec![merged_ref1.clone()], vec![]),
    );
    let state = |m: &marksmen::sync::MergedLibrary| -> Vec<(String, String, String)> {
        m.references.iter().filter(|r| r.id == "A").map(|r| (r.id.clone(), r.title.clone(), r.date_modified.clone())).collect()
    };
    assert_eq!(state(&merged), state(&merged2));
}

const ARXIV_FEED: &str = "<?xml version=\"1.0\"?>\n<feed xmlns=\"http://www.w3.org/2005/Atom\">\n<title>ArXiv Query: id_list=2101.00001</title>\n<entry>\n<published>2021-01-01T00:00:00Z</published>\n<title>Attention Is\n  All You Need</title>\n<summary>  We propose\na new model.  </summary>\n<author><name> Ada Lovelace </name></author>\n<author><name>Alan Turing</name></author>\n<arxiv:doi xmlns:arxiv=\"http://arxiv.org/schemas/atom\">10.1000/xyz</arxiv:doi>\n</entry>\n</feed>\n";

#[test]
fn arxiv_identifier_is_normalised() {
    assert_eq!(normalize_arxiv_id("  https://arxiv.org/abs/2101.00001 "), "2101.00001");
    assert_eq!(normalize_arxiv_id("arxiv:arxiv:1234.5678"), "1234.5678");
    assert_eq!(arxiv_query_url("arxiv:1234.5678"), "https://export.arxiv.org/api/query?id_list=1234.5678");
}

#[test]
fn arxiv_feed_becomes_a_preprint() {
    let r = reference_from_arxiv("arxiv:2101.00001", ARXIV_FEED).unwrap();
    assert_eq!(r.reference_type, "Preprint");
    assert_eq!(r.title, "Attention Is   All You Need");
    assert_eq!(r.abstract_text, "We propose a new model.");
    assert_eq!(r.authors, vec!["Ada Lovelace".to_string(), "Alan Turing".to_string()]);
    assert_eq!(r.year, "2021");
    assert_eq!(r.doi, "10.1000/xyz");
    assert_eq!(r.url, "https://arxiv.org/abs/2101.00001");
    assert_eq!(r.journal, "arXiv");
    assert_eq!(r.date_added, r.date_modified);
}

#[test]
fn arxiv_feed_without_entry_keeps_the_feed_title() {
    let r = reference_from_arxiv("x", "<title>Only</title>").unwrap();
    assert_eq!(r.title, "Only");
    assert!(r.authors.is_empty());
    assert_eq!(r.year, "");
}

fn some(s: &str) -> Option<String> {
    Some(s.to_string())
}

#[test]
fn crossref_work_becomes_a_reference() {
    assert_eq!(crossref_url(" 10.1/x "), "https://api.crossref.org/works/10.1/x");
    let work = CrossrefWork {
        titles: vec![some("Deep Learning"), some("ignored")],
        authors: vec![
            CrossrefAuthor { given: some("Yann"), family: some("LeCun") },
            CrossrefAuthor { given: some("Nobody"), family: None },
            CrossrefAuthor { given: None, family: some("Bengio") },
        ],
        abstract_text: some("<jats:p>Deep <b>nets</b>.</jats:p> "),
        container_titles: vec![some("Nature")],
        issns: vec![None, some("1476-4687")],
        volume: some("521"),
        issue: some("7553"),
        page: some("436-444"),
        publisher: some("Springer"),
        date_parts: vec![vec![Some(2015), Some(5)]],
        url: some("http://dx.doi.org/10.1038/nature14539"),
        work_type: some("book-chapter"),
    };
    let r = reference_from_crossref("10.1038/nature14539", &work).unwrap();
    assert_eq!(r.reference_type, "Book Chapter");
    assert_eq!(r.title, "Deep Learning");
    assert_eq!(r.authors, vec!["LeCun, Yann".to_string(), "Bengio".to_string()]);
    assert_eq!(r.abstract_text, "Deep nets.");
    assert_eq!(r.journal, "Nature");
    assert_eq!(r.issn, "");
    assert_eq!((r.volume.as_str(), r.issue.as_str(), r.pages.as_str()), ("521", "7553", "436-444"));
    assert_eq!(r.publisher, "Springer");
    assert_eq!(r.year, "2015");
    assert_eq!(r.doi, "10.1038/nature14539");
    let empty = reference_from_crossref("d", &CrossrefWork::default()).unwrap();
    assert_eq!(empty.title, "Untitled");
    assert_eq!(empty.reference_type, "Journal Article");
    assert_eq!(empty.year, "");
}

#[test]
fn pubmed_summary_becomes_a_reference() {
    assert_eq!(
        pubmed_summary_url(" 123 "),
        "https://eutils.ncbi.nlm.nih.gov/entrez/eutils/esummary.fcgi?db=pubmed&retmode=json&id=123"
    );
    assert_eq!(
        pubmed_abstract_url("123"),
        "https://eutils.ncbi.nlm.nih.gov/entrez/eutils/efetch.fcgi?db=pubmed&id=123&rettype=xml&retmode=xml"
    );
    let summary = PubmedSummary {
        title: some("A study of things..."),
        source: some("J Things"),
        pubdate: some("2019 Mar 4"),
        authors: vec![
            PubmedAuthor { authtype: some("Author"), name: some("Doe J") },
            PubmedAuthor { authtype: some("CollectiveName"), name: some("Group") },
            PubmedAuthor { authtype: some("Author"), name: None },
        ],
        article_ids: vec![
            PubmedArticleId { idtype: some("pubmed"), value: some("123") },
            PubmedArticleId { idtype: some("doi"), value: some("10.5/abc") },
            PubmedArticleId { idtype: some("doi"), value: some("10.5/other") },
        ],
        ..PubmedSummary::default()
    };
    let r = reference_from_pubmed(" 123 ", Some(&summary), "Abstract.".to_string()).unwrap();
    assert_eq!(r.title, "A study of things");
    assert_eq!(r.journal, "J Things");
    assert_eq!(r.year, "2019");
    assert_eq!(r.authors, vec!["Doe J".to_string()]);
    assert_eq!(r.doi, "10.5/abc");
    assert_eq!(r.pmid, "123");
    assert_eq!(r.abstract_text, "Abstract.");
    assert_eq!(reference_from_pubmed(" 77 ", None, String::new()).unwrap_err(), "PubMed: no record for PMID 77");
}

#[test]
fn pubmed_abstract_is_read_from_the_record() {
    let xml = "<Abstract><AbstractText Label=\"X\"> First <i>part</i> </AbstractText><AbstractText>Second</AbstractText></Abstract>";
    assert_eq!(pubmed_abstract(xml), Some("First part".to_string()));
    assert_eq!(pubmed_abstract("<Abstract/>"), None);
}

#[test]
fn openlibrary_book_becomes_a_reference() {
    assert_eq!(normalize_isbn(" 978-0 13 ").as_str(), "978013");
    assert_eq!(openlibrary_key("978-0-13"), "ISBN:978013");
    assert_eq!(openlibrary_url("978-0-13"), "https://openlibrary.org/api/books?bibkeys=ISBN:978013&format=json&jscmd=data");
    let book = OpenLibraryBook {
        title: some("SICP"),
        publishers: vec![some("MIT Press"), some("Other")],
        publish_date: some("July 25, 1996"),
        authors: vec![some("Harold Abelson"), None, some("Gerald Sussman")],
    };
    let r = reference_from_openlibrary("0-262-51087-1", Some(&book)).unwrap();
    assert_eq!(r.reference_type, "Book");
    assert_eq!(r.title, "SICP");
    assert_eq!(r.publisher, "MIT Press");
    assert_eq!(r.year, "1996");
    assert_eq!(r.authors, vec!["Harold Abelson".to_string(), "Gerald Sussman".to_string()]);
    assert_eq!(r.isbn, "0262510871");
    assert_eq!(reference_from_openlibrary("1-2", None).unwrap_err(), "No record found for ISBN 12");
}

#[test]
fn touch_stamps_an_iso_date() {
    let mut r = blank("t");
    r.date_modified = "long ago".to_string();
    r.touch();
    let d = r.date_modified.as_bytes();
    assert!(d.len() >= 10, "{}", r.date_modified);
    let n = d.len();
    assert_eq!((d[n - 6], d[n - 3]), (b'-', b'-'));
    assert!(d.iter().enumerate().all(|(i, c)| i == n - 6 || i == n - 3 || c.is_ascii_digit()));
    assert_eq!(r.id, "t");
}

#[test]
fn library_hash_is_the_hex_sha256_of_both_parts() {
    let expected = "ba7816bf8f01cfea414140de5dae2223b00361a396177a9cb410ff61f20015ad";
    assert_eq!(library_hash(b"abc", b""), expected);
    assert_eq!(library_hash(b"a", b"bc"), expected);
    assert_eq!(
        library_hash(b"", b""),
        "e3b0c44298fc1c149afbf4c8996fb92427ae41e4649b934ca495991b7852b855"
    );
}
