//! What the hashing service computes for its requests: the algorithm
//! catalogue, the hashing report, and the choice of static files.

use vstd::prelude::*;
use vstd::string::StrSliceExecFns;
use crate::algorithm::{
    Algorithm, algorithm_with_id, all_algorithms, category_of, description_of, id_of, label_of,
};
use crate::hash::{HashError, HashOptions, hash_outcome, hash_password};
use crate::text::{bytes_eq, lowercase, str_eq};

verus! {

/// One entry of the algorithm catalogue.
pub struct AlgorithmInfo {
    pub id: String,
    pub label: String,
    pub category: String,
    pub description: String,
}

/// A password hashed with one algorithm.
pub struct HashResultItem {
    pub algorithm: String,
    pub label: String,
    pub hash: String,
    pub category: String,
}

/// An algorithm that failed to hash the password.
pub struct HashErrorItem {
    pub algorithm: String,
    pub error: String,
}

/// The answer to a hashing request.
pub struct HashReport {
    pub results: Vec<HashResultItem>,
    pub errors: Vec<HashErrorItem>,
}

/// Whether a catalogue entry describes algorithm `a`.
pub open spec fn info_describes(info: AlgorithmInfo, a: Algorithm) -> bool {
    &&& info.id@ == id_of(a)
    &&& info.label@ == label_of(a)
    &&& info.category@ == category_of(a)
    &&& info.description@ == description_of(a)
}

/// The catalogue of all algorithms, in the service's order, with their
/// identifiers, labels, categories and descriptions.
pub fn algorithm_catalog() -> (r: Vec<AlgorithmInfo>)
    ensures
        r@.len() == all_algorithms().len(),
        forall|i: int| 0 <= i < r@.len() ==> info_describes(#[trigger] r@[i], all_algorithms()[i]),
{
    let all = Algorithm::all();
    let mut r: Vec<AlgorithmInfo> = Vec::new();
    let mut i: usize = 0;
    while i < all.len()
        invariant
            all@ == all_algorithms(),
            i <= all@.len(),
            r@.len() == i,
            forall|k: int| 0 <= k < i ==> info_describes(#[trigger] r@[k], all_algorithms()[k]),
        decreases all@.len() - i,
    {
        let a = all[i];
        r.push(
            AlgorithmInfo {
                id: a.id().to_owned(),
                label: a.label().to_owned(),
                category: a.category().to_owned(),
                description: a.description().to_owned(),
            },
        );
        i = i + 1;
    }
    r
}

/// The algorithms named in a list, in order, dropping names that match no
/// algorithm (names are compared without regard to case).
pub open spec fn named_algorithms(names: Seq<String>) -> Seq<Algorithm>
    decreases names.len(),
{
    if names.len() == 0 {
        Seq::empty()
    } else {
        let rest = named_algorithms(names.drop_last());
        match algorithm_with_id(lowercase(names.last()@)) {
            Some(a) => rest.push(a),
            None => rest,
        }
    }
}

/// Naming one more algorithm appends it when its name (without regard to
/// case) is an identifier, and changes nothing otherwise.
pub proof fn lemma_named_algorithms_push(names: Seq<String>, name: String)
    ensures
        named_algorithms(names.push(name)) == match algorithm_with_id(lowercase(name@)) {
            Some(a) => named_algorithms(names).push(a),
            None => named_algorithms(names),
        },
{
    assert(names.push(name).drop_last() =~= names);
}

/// The algorithms a request asks for: every algorithm when it names none,
/// else those it names that exist.
pub open spec fn selected_algorithms(names: Seq<String>) -> Seq<Algorithm> {
    if names.len() == 0 {
        all_algorithms()
    } else {
        named_algorithms(names)
    }
}

/// The algorithms a request asks for: every algorithm when `names` is
/// empty, else the algorithms `names` names, in order, skipping unknown
/// names.
pub fn select_algorithms(names: &Vec<String>) -> (r: Vec<Algorithm>)
    ensures
        r@ == selected_algorithms(names@),
{
    if names.len() == 0 {
        return Algorithm::all();
    }
    let mut r: Vec<Algorithm> = Vec::new();
    let mut i: usize = 0;
    assert(names@.take(0) =~= Seq::<String>::empty());
    while i < names.len()
        invariant
            i <= names@.len(),
            r@ == named_algorithms(names@.take(i as int)),
        decreases names@.len() - i,
    {
        assert(names@.take(i + 1).drop_last() =~= names@.take(i as int));
        if let Some(a) = Algorithm::from_str(names[i].as_str()) {
            r.push(a);
        }
        i = i + 1;
    }
    assert(names@.take(names@.len() as int) =~= names@);
    r
}

/// Hashes the password with each algorithm in turn.
pub fn hash_each(password: &str, algorithms: &Vec<Algorithm>, options: &HashOptions) -> (r: Vec<
    Result<String, HashError>,
>)
    ensures
        r@.len() == algorithms@.len(),
        forall|i: int|
            0 <= i < r@.len() ==> hash_outcome(password@, algorithms@[i], *options, #[trigger] r@[i]),
{
    let mut r: Vec<Result<String, HashError>> = Vec::new();
    let mut i: usize = 0;
    while i < algorithms.len()
        invariant
            i <= algorithms@.len(),
            r@.len() == i,
            forall|k: int|
                0 <= k < i ==> hash_outcome(password@, algorithms@[k], *options, #[trigger] r@[k]),
        decreases algorithms@.len() - i,
    {
        let out = hash_password(password, algorithms[i], options);
        r.push(out);
        i = i + 1;
    }
    r
}

/// Whether a report answers hashing `password` with each algorithm: some
/// outcomes that `hash_password` may give, one per algorithm, are what it
/// lists.
pub open spec fn report_answers(
    report: HashReport,
    password: Seq<char>,
    algorithms: Seq<Algorithm>,
    options: HashOptions,
) -> bool {
    exists|outcomes: Seq<Result<String, HashError>>|
        {
            &&& outcomes.len() == algorithms.len()
            &&& forall|i: int|
                0 <= i < outcomes.len() ==> hash_outcome(
                    password,
                    algorithms[i],
                    options,
                    #[trigger] outcomes[i],
                )
            &&& #[trigger] report_describes(report, algorithms, outcomes)
        }
}

/// The successful outcomes, in order: each algorithm with its hash.
pub open spec fn successes(
    algorithms: Seq<Algorithm>,
    outcomes: Seq<Result<String, HashError>>,
) -> Seq<(Algorithm, Seq<char>)>
    decreases outcomes.len(),
{
    if outcomes.len() == 0 || algorithms.len() == 0 {
        Seq::empty()
    } else {
        let rest = successes(algorithms.drop_last(), outcomes.drop_last());
        match outcomes.last() {
            Ok(s) => rest.push((algorithms.last(), s@)),
            Err(_) => rest,
        }
    }
}

/// The failed outcomes, in order: each algorithm with its error message.
pub open spec fn failures(
    algorithms: Seq<Algorithm>,
    outcomes: Seq<Result<String, HashError>>,
) -> Seq<(Algorithm, Seq<char>)>
    decreases outcomes.len(),
{
    if outcomes.len() == 0 || algorithms.len() == 0 {
        Seq::empty()
    } else {
        let rest = failures(algorithms.drop_last(), outcomes.drop_last());
        match outcomes.last() {
            Ok(_) => rest,
            Err(e) => rest.push((algorithms.last(), e.message@)),
        }
    }
}

/// Whether a result item reports hash `hash` of algorithm `a`.
pub open spec fn result_item_is(item: HashResultItem, a: Algorithm, hash: Seq<char>) -> bool {
    &&& item.algorithm@ == id_of(a)
    &&& item.label@ == label_of(a)
    &&& item.hash@ == hash
    &&& item.category@ == category_of(a)
}

/// Whether an error item reports error `message` of algorithm `a`.
pub open spec fn error_item_is(item: HashErrorItem, a: Algorithm, message: Seq<char>) -> bool {
    &&& item.algorithm@ == id_of(a)
    &&& item.error@ == message
}

/// Whether a report lists the successes and the failures of the outcomes,
/// each in order.
pub open spec fn report_describes(
    report: HashReport,
    algorithms: Seq<Algorithm>,
    outcomes: Seq<Result<String, HashError>>,
) -> bool {
    let ok = successes(algorithms, outcomes);
    let bad = failures(algorithms, outcomes);
    &&& report.results@.len() == ok.len()
    &&& forall|i: int|
        0 <= i < ok.len() ==> result_item_is(#[trigger] report.results@[i], ok[i].0, ok[i].1)
    &&& report.errors@.len() == bad.len()
    &&& forall|i: int|
        0 <= i < bad.len() ==> error_item_is(#[trigger] report.errors@[i], bad[i].0, bad[i].1)
}

/// The report of the outcomes of hashing with each algorithm: the
/// successes as result items, the failures as error items, each in order.
pub fn build_report(algorithms: &Vec<Algorithm>, outcomes: &Vec<Result<String, HashError>>) -> (r:
    HashReport)
    requires
        algorithms@.len() == outcomes@.len(),
    ensures
        report_describes(r, algorithms@, outcomes@),
{
    let mut results: Vec<HashResultItem> = Vec::new();
    let mut errors: Vec<HashErrorItem> = Vec::new();
    let mut i: usize = 0;
    while i < outcomes.len()
        invariant
            algorithms@.len() == outcomes@.len(),
            i <= outcomes@.len(),
            report_describes(
                HashReport { results, errors },
                algorithms@.take(i as int),
                outcomes@.take(i as int),
            ),
        decreases outcomes@.len() - i,
    {
        let a = algorithms[i];
        proof {
            assert(algorithms@.take(i + 1).drop_last() =~= algorithms@.take(i as int));
            assert(outcomes@.take(i + 1).drop_last() =~= outcomes@.take(i as int));
        }
        match &outcomes[i] {
            Ok(s) => {
                results.push(
                    HashResultItem {
                        algorithm: a.id().to_owned(),
                        label: a.label().to_owned(),
                        hash: s.clone(),
                        category: a.category().to_owned(),
                    },
                );
            },
            Err(e) => {
                errors.push(HashErrorItem { algorithm: a.id().to_owned(), error: e.message.clone() });
            },
        }
        i = i + 1;
    }
    proof {
        assert(algorithms@.take(i as int) =~= algorithms@);
        assert(outcomes@.take(i as int) =~= outcomes@);
    }
    HashReport { results, errors }
}

/// The answer to a hashing request: refused when the password is empty or
/// no algorithm is selected; otherwise the report of hashing the password
/// with each selected algorithm.
pub fn hash_request(password: &str, names: &Vec<String>, options: &HashOptions) -> (r: Result<
    HashReport,
    String,
>)
    ensures
        password@.len() == 0 ==> (r matches Err(m) && m@ == "Password cannot be empty"@),
        password@.len() != 0 && selected_algorithms(names@).len() == 0 ==> (r matches Err(m) && m@
            == "No valid algorithms specified"@),
        password@.len() != 0 && selected_algorithms(names@).len() != 0 ==> (r matches Ok(report)
            && report_answers(report, password@, selected_algorithms(names@), *options)),
{
    if password.is_empty() {
        return Err("Password cannot be empty".to_owned());
    }
    let algorithms = select_algorithms(names);
    if algorithms.len() == 0 {
        return Err("No valid algorithms specified".to_owned());
    }
    let outcomes = hash_each(password, &algorithms, options);
    let report = build_report(&algorithms, &outcomes);
    proof {
        let sel = selected_algorithms(names@);
        assert(algorithms@ == sel);
        assert(outcomes@.len() == sel.len());
        assert(forall|i: int|
            0 <= i < outcomes@.len() ==> hash_outcome(password@, sel[i], *options, #[trigger] outcomes@[i]));
        assert(report_describes(report, sel, outcomes@));
    }
    Ok(report)
}

/// One more outcome adds one result when it is a success and one error when
/// it is a failure, after those already listed.
pub proof fn lemma_outcomes_push(
    algorithms: Seq<Algorithm>,
    outcomes: Seq<Result<String, HashError>>,
    a: Algorithm,
    o: Result<String, HashError>,
)
    requires
        algorithms.len() == outcomes.len(),
    ensures
        successes(algorithms.push(a), outcomes.push(o)) == match o {
            Ok(s) => successes(algorithms, outcomes).push((a, s@)),
            Err(_) => successes(algorithms, outcomes),
        },
        failures(algorithms.push(a), outcomes.push(o)) == match o {
            Ok(_) => failures(algorithms, outcomes),
            Err(e) => failures(algorithms, outcomes).push((a, e.message@)),
        },
{
    assert(algorithms.push(a).drop_last() =~= algorithms);
    assert(outcomes.push(o).drop_last() =~= outcomes);
}

/// Each outcome is either a success or a failure.
pub proof fn lemma_outcomes_split(algorithms: Seq<Algorithm>, outcomes: Seq<Result<String, HashError>>)
    requires
        algorithms.len() == outcomes.len(),
    ensures
        successes(algorithms, outcomes).len() + failures(algorithms, outcomes).len() == outcomes.len(),
    decreases outcomes.len(),
{
    if outcomes.len() > 0 {
        lemma_outcomes_split(algorithms.drop_last(), outcomes.drop_last());
    }
}

/// A report lists every algorithm it was asked for exactly once: the
/// results and the errors together have one entry per algorithm.
pub proof fn lemma_report_accounts_for_each_algorithm(
    report: HashReport,
    password: Seq<char>,
    algorithms: Seq<Algorithm>,
    options: HashOptions,
)
    requires
        report_answers(report, password, algorithms, options),
    ensures
        report.results@.len() + report.errors@.len() == algorithms.len(),
{
    let outcomes = choose|outcomes: Seq<Result<String, HashError>>|
        {
            &&& outcomes.len() == algorithms.len()
            &&& forall|i: int|
                0 <= i < outcomes.len() ==> hash_outcome(
                    password,
                    algorithms[i],
                    options,
                    #[trigger] outcomes[i],
                )
            &&& #[trigger] report_describes(report, algorithms, outcomes)
        };
    lemma_outcomes_split(algorithms, outcomes);
}

/// Where the last segment of `p[..end]` starts: just after the last `.`
/// before `end`, or 0 when there is none.
pub open spec fn segment_start(p: Seq<char>, end: int) -> int
    decreases end,
{
    if end <= 0 {
        0
    } else if p[end - 1] == '.' {
        end
    } else {
        segment_start(p, end - 1)
    }
}

/// The text after the last `.` of a path (the whole path when it has none).
pub open spec fn extension(p: Seq<char>) -> Seq<char> {
    p.subrange(segment_start(p, p.len() as int), p.len() as int)
}

/// The content type served for a file extension.
pub open spec fn mime_for_extension(ext: Seq<char>) -> Seq<char> {
    if ext == "css"@ {
        "text/css; charset=utf-8"@
    } else if ext == "js"@ {
        "application/javascript; charset=utf-8"@
    } else if ext == "svg"@ {
        "image/svg+xml"@
    } else if ext == "png"@ {
        "image/png"@
    } else if ext == "ico"@ {
        "image/x-icon"@
    } else if ext == "woff2"@ {
        "font/woff2"@
    } else {
        "text/html; charset=utf-8"@
    }
}

/// The extension of a path is the text after its last `.`: a suffix of
/// the path with no `.` in it, which is either the whole path or follows a
/// `.`.
pub proof fn lemma_extension(p: Seq<char>)
    ensures
        ({
            let e = extension(p);
            let start = p.len() - e.len();
            &&& e.len() <= p.len()
            &&& e == p.subrange(start, p.len() as int)
            &&& forall|i: int| 0 <= i < e.len() ==> #[trigger] e[i] != '.'
            &&& start == 0 || p[start - 1] == '.'
        }),
{
    lemma_segment_start(p, p.len() as int);
}

proof fn lemma_segment_start(p: Seq<char>, end: int)
    requires
        0 <= end <= p.len(),
    ensures
        0 <= segment_start(p, end) <= end,
        segment_start(p, end) == 0 || p[segment_start(p, end) - 1] == '.',
        forall|i: int| segment_start(p, end) <= i < end ==> #[trigger] p[i] != '.',
    decreases end,
{
    if end > 0 && p[end - 1] != '.' {
        lemma_segment_start(p, end - 1);
    }
}

/// The content types served: CSS, JavaScript, SVG, PNG, icons and WOFF2 by
/// their extensions, HTML for anything else.
pub proof fn lemma_mime_table(ext: Seq<char>)
    ensures
        mime_for_extension("css"@) == "text/css; charset=utf-8"@,
        mime_for_extension("js"@) == "application/javascript; charset=utf-8"@,
        mime_for_extension("svg"@) == "image/svg+xml"@,
        mime_for_extension("png"@) == "image/png"@,
        mime_for_extension("ico"@) == "image/x-icon"@,
        mime_for_extension("woff2"@) == "font/woff2"@,
        (ext != "css"@ && ext != "js"@ && ext != "svg"@ && ext != "png"@ && ext != "ico"@ && ext
            != "woff2"@) ==> mime_for_extension(ext) == "text/html; charset=utf-8"@,
{
    reveal_strlit("css");
    reveal_strlit("js");
    reveal_strlit("svg");
    reveal_strlit("png");
    reveal_strlit("ico");
    reveal_strlit("woff2");
    assert("css"@[0] == 'c' && "svg"@[0] == 's' && "png"@[0] == 'p' && "ico"@[0] == 'i');
    assert("css"@.len() == 3 && "js"@.len() == 2 && "woff2"@.len() == 5);
    assert("svg"@.len() == 3 && "png"@.len() == 3 && "ico"@.len() == 3);
}

/// The content type of a static file, chosen by the text after the last
/// `.` of its path; HTML for anything unknown.
pub fn mime_guess(path: &str) -> (r: &'static str)
    ensures
        r@ == mime_for_extension(extension(path@)),
{
    let n = path.unicode_len();
    let mut j: usize = n;
    while j > 0 && path.get_char(j - 1) != '.'
        invariant
            n == path@.len(),
            j <= n,
            segment_start(path@, n as int) == segment_start(path@, j as int),
        decreases j,
    {
        j = j - 1;
    }
    let ext = path.substring_char(j, n);
    if str_eq(ext, "css") {
        "text/css; charset=utf-8"
    } else if str_eq(ext, "js") {
        "application/javascript; charset=utf-8"
    } else if str_eq(ext, "svg") {
        "image/svg+xml"
    } else if str_eq(ext, "png") {
        "image/png"
    } else if str_eq(ext, "ico") {
        "image/x-icon"
    } else if str_eq(ext, "woff2") {
        "font/woff2"
    } else {
        "text/html; charset=utf-8"
    }
}

/// A path with its leading `/` characters removed.
pub open spec fn trim_leading_slashes(p: Seq<char>) -> Seq<char>
    decreases p.len(),
{
    if p.len() > 0 && p[0] == '/' {
        trim_leading_slashes(p.drop_first())
    } else {
        p
    }
}

/// The static file that a request path asks for: the path without its
/// leading `/` characters, or `index.html` when nothing is left.
pub open spec fn static_file_for(request_path: Seq<char>) -> Seq<char> {
    let t = trim_leading_slashes(request_path);
    if t.len() == 0 {
        "index.html"@
    } else {
        t
    }
}

/// Trimming removes exactly the leading `/` characters: what is left is a
/// suffix of the path that does not start with `/`, and everything before it
/// is `/`.
pub proof fn lemma_trim_leading_slashes(p: Seq<char>)
    ensures
        ({
            let t = trim_leading_slashes(p);
            let cut = p.len() - t.len();
            &&& t.len() <= p.len()
            &&& t == p.subrange(cut, p.len() as int)
            &&& forall|i: int| 0 <= i < cut ==> #[trigger] p[i] == '/'
            &&& t.len() == 0 || t[0] != '/'
        }),
    decreases p.len(),
{
    if p.len() > 0 && p[0] == '/' {
        lemma_trim_leading_slashes(p.drop_first());
        let t = trim_leading_slashes(p);
        assert(t == trim_leading_slashes(p.drop_first()));
        assert(t =~= p.subrange(p.len() - t.len(), p.len() as int));
        assert forall|i: int| 0 <= i < p.len() - t.len() implies #[trigger] p[i] == '/' by {
            if i > 0 {
                assert(p[i] == p.drop_first()[i - 1]);
            }
        }
    } else {
        assert(p =~= p.subrange(0, p.len() as int));
    }
}

/// The static file that a request path asks for: the path without its
/// leading `/` characters, or `index.html` when nothing is left.
pub fn static_file_name(request_path: &str) -> (r: String)
    ensures
        r@ == static_file_for(request_path@),
{
    let n = request_path.unicode_len();
    let mut j: usize = 0;
    assert(request_path@.subrange(0, n as int) =~= request_path@);
    while j < n && request_path.get_char(j) == '/'
        invariant
            n == request_path@.len(),
            j <= n,
            trim_leading_slashes(request_path@) == trim_leading_slashes(
                request_path@.subrange(j as int, n as int),
            ),
        decreases n - j,
    {
        assert(request_path@.subrange(j as int, n as int).drop_first() =~= request_path@.subrange(
            j + 1,
            n as int,
        ));
        j = j + 1;
    }
    if j == n {
        "index.html".to_owned()
    } else {
        request_path.substring_char(j, n).to_owned()
    }
}

/// Whether a path, given by its components, lies under a root: the root's
/// components are the path's first components.
pub open spec fn is_under(root: Seq<Vec<u8>>, path: Seq<Vec<u8>>) -> bool {
    &&& root.len() <= path.len()
    &&& forall|i: int| 0 <= i < root.len() ==> #[trigger] root[i]@ == path[i]@
}

/// Whether a path lies under a root, comparing whole components (the
/// bytes of each): a static file is served only from under its root.
pub fn path_is_under(root: &Vec<Vec<u8>>, path: &Vec<Vec<u8>>) -> (r: bool)
    ensures
        r == is_under(root@, path@),
{
    if root.len() > path.len() {
        return false;
    }
    let mut i: usize = 0;
    while i < root.len()
        invariant
            root@.len() <= path@.len(),
            i <= root@.len(),
            forall|k: int| 0 <= k < i ==> #[trigger] root@[k]@ == path@[k]@,
        decreases root@.len() - i,
    {
        if !bytes_eq(&root[i], &path[i]) {
            return false;
        }
        i = i + 1;
    }
    true
}

} // verus!
