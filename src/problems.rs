//! The problem collection: creating, editing, deleting and grading problems,
//! and the filtered, paged listing.
use vstd::prelude::*;
use vstd::string::StringExecFns;
use crate::models::{BaseProblem, CreateProblemRequest, DiskProblem, Grade, ProblemQuery, UpdateProblemRequest};
use crate::persist::ProblemIdCounter;

verus! {

/// Why a problem request is refused.
#[derive(Clone, Copy, Debug, PartialEq, Eq, Structural)]
pub enum ProblemError {
    NotFound,
    /// Only the author or an administrator may change a problem.
    Forbidden,
    InvalidSector,
    InvalidHoldSequence,
    InvalidStars,
}

/// The decimal digit `d`.
pub open spec fn digit_char(d: int) -> char {
    seq!['0', '1', '2', '3', '4', '5', '6', '7', '8', '9'][d]
}

/// The decimal numeral of `n`, without leading zeros.
pub open spec fn decimal_of(n: nat) -> Seq<char>
    decreases n,
{
    if n < 10 {
        seq![digit_char(n as int)]
    } else {
        decimal_of(n / 10) + seq![digit_char((n % 10) as int)]
    }
}

/// Relies on u64's Display, through ToString::to_string: the decimal numeral.
#[verifier::external_body]
fn decimal(n: u64) -> (r: String)
    ensures
        r@ == decimal_of(n as nat),
{
    n.to_string()
}

/// The current time as the decimal count of seconds since the Unix epoch.
pub fn now() -> (r: String)
    ensures
        exists|t: u64| r@ == decimal_of(t as nat),
{
    let t = crate::throttle::unix_time_now();
    decimal(t)
}

/// Whether `i` is the first problem with id `id`.
pub open spec fn is_first_id(problems: Seq<DiskProblem>, id: u32, i: int) -> bool {
    &&& 0 <= i < problems.len()
    &&& problems[i].base.id == id
    &&& forall|j: int| 0 <= j < i ==> (#[trigger] problems[j]).base.id != id
}

/// Whether some problem has id `id`.
pub open spec fn has_id(problems: Seq<DiskProblem>, id: u32) -> bool {
    exists|i: int| 0 <= i < problems.len() && (#[trigger] problems[i]).base.id == id
}

/// Whether `username` may change a problem by `author`.
pub open spec fn may_edit(author: Seq<char>, username: Seq<char>, is_admin: bool) -> bool {
    author == username || is_admin
}

/// The name a new problem gets: the one asked for, else "Problem <id>".
pub open spec fn new_problem_name(name: Option<String>, id: u32) -> Seq<char> {
    match name {
        Some(n) => n@,
        None => "Problem "@ + decimal_of(id as nat),
    }
}

/// The index of the first problem with id `id`, if any.
pub fn find_problem(problems: &Vec<DiskProblem>, id: u32) -> (r: Option<usize>)
    ensures
        match r {
            Some(i) => is_first_id(problems@, id, i as int),
            None => !has_id(problems@, id),
        },
{
    let mut i: usize = 0;
    while i < problems.len()
        invariant
            i <= problems@.len(),
            forall|j: int| 0 <= j < i ==> (#[trigger] problems@[j]).base.id != id,
        decreases problems@.len() - i,
    {
        if problems[i].base.id == id {
            return Some(i);
        }
        i = i + 1;
    }
    None
}

/// Adds a problem by `author` in a sector that exists, with at least one
/// hold, under the next id; returns that id.
pub fn create_problem(
    problems: &mut Vec<DiskProblem>,
    ids: &mut ProblemIdCounter,
    author: String,
    req: CreateProblemRequest,
    sector_exists: bool,
    updated_at: String,
) -> (r: Result<u32, ProblemError>)
    requires
        old(ids)@ < u32::MAX,
    ensures
        !sector_exists ==> r == Err::<u32, ProblemError>(ProblemError::InvalidSector),
        sector_exists && req.hold_sequence@.len() == 0 ==> r == Err::<u32, ProblemError>(
            ProblemError::InvalidHoldSequence,
        ),
        r is Err ==> final(problems)@ == old(problems)@ && final(ids)@ == old(ids)@,
        sector_exists && req.hold_sequence@.len() > 0 ==> r == Ok::<u32, ProblemError>(old(ids)@ as u32),
        r is Ok ==> {
            let p = final(problems)@.last();
            &&& final(ids)@ == old(ids)@ + 1
            &&& final(problems)@ == old(problems)@.push(p)
            &&& p.base.id == old(ids)@
            &&& p.base.name@ == new_problem_name(req.name, old(ids)@ as u32)
            &&& p.base.description == req.description
            &&& p.base.author == author
            &&& p.base.grade == req.grade
            &&& p.base.sector_id == req.sector_id
            &&& p.base.updated_at == updated_at
            &&& p.hold_sequence == req.hold_sequence
            &&& p.grades@.len() == 0
        },
{
    if !sector_exists {
        return Err(ProblemError::InvalidSector);
    }
    if req.hold_sequence.len() == 0 {
        return Err(ProblemError::InvalidHoldSequence);
    }
    let id = ids.get_next_problem_id();
    let name = match req.name {
        Some(n) => n,
        None => {
            let mut n = String::from_str("Problem ");
            let digits = decimal(id as u64);
            n.append(digits.as_str());
            n
        },
    };
    let p = DiskProblem {
        base: BaseProblem {
            id,
            name,
            description: req.description,
            author,
            grade: req.grade,
            sector_id: req.sector_id,
            updated_at,
        },
        hold_sequence: req.hold_sequence,
        grades: Vec::new(),
    };
    problems.push(p);
    assert(final(problems)@.last() == p);
    Ok(id)
}

/// Deletes problem `id`, which only its author or an administrator may do.
pub fn delete_problem(problems: &mut Vec<DiskProblem>, id: u32, username: &str, is_admin: bool) -> (r: Result<(), ProblemError>)
    ensures
        !has_id(old(problems)@, id) ==> r == Err::<(), ProblemError>(ProblemError::NotFound),
        forall|i: int| #[trigger] is_first_id(old(problems)@, id, i) ==> if may_edit(old(problems)@[i].base.author@, username@, is_admin) {
            r is Ok && final(problems)@ == old(problems)@.remove(i)
        } else {
            r == Err::<(), ProblemError>(ProblemError::Forbidden)
        },
        r is Err ==> final(problems)@ == old(problems)@,
{
    let i = match find_problem(problems, id) {
        Some(i) => i,
        None => {
            return Err(ProblemError::NotFound);
        },
    };
    let name = username.to_owned();
    if !(problems[i].base.author == name || is_admin) {
        return Err(ProblemError::Forbidden);
    }
    problems.remove(i);
    Ok(())
}

/// Whether `k` is the first grade given by `username`.
pub open spec fn is_first_grader(grades: Seq<Grade>, username: Seq<char>, k: int) -> bool {
    &&& 0 <= k < grades.len()
    &&& grades[k].username@ == username
    &&& forall|j: int| 0 <= j < k ==> (#[trigger] grades[j]).username@ != username
}

/// Whether `username` has graded already.
pub open spec fn has_grader(grades: Seq<Grade>, username: Seq<char>) -> bool {
    exists|k: int| 0 <= k < grades.len() && (#[trigger] grades[k]).username@ == username
}

/// The index of the first grade given by `username`, if any.
fn find_grade(grades: &Vec<Grade>, username: &String) -> (r: Option<usize>)
    ensures
        match r {
            Some(k) => is_first_grader(grades@, username@, k as int),
            None => !has_grader(grades@, username@),
        },
{
    let mut k: usize = 0;
    while k < grades.len()
        invariant
            k <= grades@.len(),
            forall|j: int| 0 <= j < k ==> (#[trigger] grades@[j]).username@ != username@,
        decreases grades@.len() - k,
    {
        if grades[k].username == *username {
            return Some(k);
        }
        k = k + 1;
    }
    None
}

/// Whether a grade submission is new or replaces the user's earlier one.
#[derive(Clone, Copy, Debug, PartialEq, Eq, Structural)]
pub enum GradeOutcome {
    Created,
    Updated,
}

/// Edits problem `id` as its author or an administrator: each field that
/// `req` holds replaces the old one; new holds, which must not be empty,
/// discard the grades given so far. Returns the problem's index.
pub fn update_problem(
    problems: &mut Vec<DiskProblem>,
    id: u32,
    username: &str,
    is_admin: bool,
    req: UpdateProblemRequest,
    updated_at: String,
) -> (r: Result<usize, ProblemError>)
    ensures
        !has_id(old(problems)@, id) ==> r == Err::<usize, ProblemError>(ProblemError::NotFound),
        r is Err ==> final(problems)@ == old(problems)@,
        forall|i: int| #[trigger] is_first_id(old(problems)@, id, i) ==> {
            let p = old(problems)@[i];
            if !may_edit(p.base.author@, username@, is_admin) {
                r == Err::<usize, ProblemError>(ProblemError::Forbidden)
            } else if req.hold_sequence is Some && req.hold_sequence->0@.len() == 0 {
                r == Err::<usize, ProblemError>(ProblemError::InvalidHoldSequence)
            } else {
                let q = final(problems)@[i];
                &&& r == Ok::<usize, ProblemError>(i as usize)
                &&& final(problems)@ == old(problems)@.update(i, q)
                &&& q.base.id == p.base.id
                &&& q.base.author == p.base.author
                &&& q.base.sector_id == p.base.sector_id
                &&& q.base.name == (match req.name { Some(n) => n, None => p.base.name })
                &&& q.base.description == (match req.description { Some(d) => Some(d), None => p.base.description })
                &&& q.base.grade == (match req.grade { Some(g) => g, None => p.base.grade })
                &&& q.base.updated_at == updated_at
                &&& q.hold_sequence == (match req.hold_sequence { Some(h) => h, None => p.hold_sequence })
                &&& q.grades@ == (if req.hold_sequence is Some { Seq::<Grade>::empty() } else { p.grades@ })
            }
        },
{
    let i = match find_problem(problems, id) {
        Some(i) => i,
        None => {
            return Err(ProblemError::NotFound);
        },
    };
    let name = username.to_owned();
    if !(problems[i].base.author == name || is_admin) {
        return Err(ProblemError::Forbidden);
    }
    match &req.hold_sequence {
        Some(h) => if h.len() == 0 {
            return Err(ProblemError::InvalidHoldSequence);
        },
        None => {},
    }
    let mut p = problems.remove(i);
    match req.name {
        Some(n) => {
            p.base.name = n;
        },
        None => {},
    }
    match req.description {
        Some(d) => {
            p.base.description = Some(d);
        },
        None => {},
    }
    match req.grade {
        Some(g) => {
            p.base.grade = g;
        },
        None => {},
    }
    match req.hold_sequence {
        Some(h) => {
            p.hold_sequence = h;
            p.grades.clear();
        },
        None => {},
    }
    p.base.updated_at = updated_at;
    problems.insert(i, p);
    assert(final(problems)@ =~= old(problems)@.update(i as int, p));
    Ok(i)
}

/// Records `username`'s grade and stars (1 to 5) for problem `id`,
/// replacing the user's earlier grade if there is one.
pub fn submit_problem_grade(
    problems: &mut Vec<DiskProblem>,
    id: u32,
    username: String,
    grade: u8,
    stars: u8,
    created_at: String,
) -> (r: Result<GradeOutcome, ProblemError>)
    ensures
        !(1 <= stars <= 5) ==> r == Err::<GradeOutcome, ProblemError>(ProblemError::InvalidStars),
        1 <= stars <= 5 && !has_id(old(problems)@, id) ==> r == Err::<GradeOutcome, ProblemError>(
            ProblemError::NotFound,
        ),
        r is Err ==> final(problems)@ == old(problems)@,
        1 <= stars <= 5 ==> forall|i: int| #[trigger] is_first_id(old(problems)@, id, i) ==> {
            let p = old(problems)@[i];
            let q = final(problems)@[i];
            &&& final(problems)@ == old(problems)@.update(i, q)
            &&& q.base == p.base
            &&& q.hold_sequence == p.hold_sequence
            &&& if has_grader(p.grades@, username@) {
                &&& r == Ok::<GradeOutcome, ProblemError>(GradeOutcome::Updated)
                &&& forall|k: int| #[trigger] is_first_grader(p.grades@, username@, k) ==>
                    q.grades@ == p.grades@.update(k, Grade {
                        username: p.grades@[k].username,
                        grade,
                        stars,
                        created_at,
                    })
            } else {
                &&& r == Ok::<GradeOutcome, ProblemError>(GradeOutcome::Created)
                &&& q.grades@ == p.grades@.push(Grade { username, grade, stars, created_at })
            }
        },
{
    if stars < 1 || stars > 5 {
        return Err(ProblemError::InvalidStars);
    }
    let i = match find_problem(problems, id) {
        Some(i) => i,
        None => {
            return Err(ProblemError::NotFound);
        },
    };
    let mut p = problems.remove(i);
    let ghost p0 = p;
    let found = find_grade(&p.grades, &username);
    let outcome = if let Some(k) = found {
        let mut g = p.grades.remove(k);
        g.grade = grade;
        g.stars = stars;
        g.created_at = created_at;
        p.grades.insert(k, g);
        assert(p.grades@ =~= p0.grades@.update(k as int, g));
        assert(is_first_grader(p0.grades@, username@, k as int));
        GradeOutcome::Updated
    } else {
        let g = Grade { username, grade, stars, created_at };
        p.grades.push(g);
        GradeOutcome::Created
    };
    problems.insert(i, p);
    assert(final(problems)@ =~= old(problems)@.update(i as int, p));
    Ok(outcome)
}

/// The lowercase form of a string, as `str::to_lowercase` gives it.
pub uninterp spec fn lower_of(s: Seq<char>) -> Seq<char>;

/// Relies on str::to_lowercase: each character's lowercase mapping; the
/// result depends on the characters alone.
#[verifier::external_body]
pub(crate) fn lowercase(s: &str) -> (r: String)
    ensures
        r@ == lower_of(s@),
{
    s.to_lowercase()
}

/// Whether `needle` occurs in `hay` as a run of consecutive characters.
pub open spec fn is_substring(needle: Seq<char>, hay: Seq<char>) -> bool {
    exists|i: int| 0 <= i && i + needle.len() <= hay.len() && #[trigger] hay.subrange(i, i + needle.len()) == needle
}

/// Relies on str::contains with a string pattern: whether `needle` occurs in `hay`.
#[verifier::external_body]
fn contains_str(hay: &str, needle: &str) -> (r: bool)
    ensures
        r == is_substring(needle@, hay@),
{
    hay.contains(needle)
}

/// Whether a name, already lowercased, matches a query, already lowercased.
pub fn name_matches_folded(folded_query: &str, folded_name: &str) -> (r: bool)
    ensures
        r == is_substring(folded_query@, folded_name@),
{
    contains_str(folded_name, folded_query)
}

/// Whether a problem passes every filter of the query; the name filter
/// ignores case.
pub open spec fn problem_matches(p: DiskProblem, q: ProblemQuery) -> bool {
    &&& match q.sector {
        Some(s) => p.base.sector_id == s,
        None => true,
    }
    &&& match q.min_grade {
        Some(g) => p.base.grade >= g,
        None => true,
    }
    &&& match q.max_grade {
        Some(g) => p.base.grade <= g,
        None => true,
    }
    &&& match q.name {
        Some(n) => is_substring(lower_of(n@), lower_of(p.base.name@)),
        None => true,
    }
}

/// The indices, in order, of the first `n` problems that pass the query.
pub open spec fn matching_upto(problems: Seq<DiskProblem>, q: ProblemQuery, n: int) -> Seq<usize>
    decreases n,
{
    if n <= 0 {
        Seq::empty()
    } else {
        let prev = matching_upto(problems, q, n - 1);
        if problem_matches(problems[n - 1], q) {
            prev.push((n - 1) as usize)
        } else {
            prev
        }
    }
}

/// The page asked for, at least 1 (default 1).
pub open spec fn page_of(q: ProblemQuery) -> u32 {
    match q.page {
        Some(p) => if p < 1 { 1 } else { p },
        None => 1,
    }
}

/// The page size asked for, from 1 to 100 (default 20).
pub open spec fn per_page_of(q: ProblemQuery) -> u32 {
    let n: u32 = match q.per_page {
        Some(n) => n,
        None => 20,
    };
    if n > 100 {
        100
    } else if n < 1 {
        1
    } else {
        n
    }
}

/// The run of `s` from `skip`, at most `len` long.
pub open spec fn window(s: Seq<usize>, skip: int, len: int) -> Seq<usize> {
    let start = if skip < s.len() { skip } else { s.len() as int };
    let end = if skip + len < s.len() { skip + len } else { s.len() as int };
    s.subrange(start, end)
}

/// One page of a problem listing.
pub struct ProblemPage {
    /// Indices into the problem collection, in its order.
    pub indices: Vec<usize>,
    /// How many problems pass the filters in all.
    pub total: usize,
    pub page: u32,
    pub per_page: u32,
}

/// The problems that pass the query's filters, paged.
pub fn list_problems(problems: &Vec<DiskProblem>, query: &ProblemQuery) -> (r: ProblemPage)
    ensures
        ({
            let all = matching_upto(problems@, *query, problems@.len() as int);
            &&& r.total == all.len()
            &&& r.page == page_of(*query)
            &&& r.per_page == per_page_of(*query)
            &&& r.indices@ == window(all, (r.page - 1) * r.per_page, r.per_page as int)
        }),
{
    let folded_query: Option<String> = match &query.name {
        Some(n) => Some(lowercase(n.as_str())),
        None => None,
    };
    let mut all: Vec<usize> = Vec::new();
    let mut i: usize = 0;
    while i < problems.len()
        invariant
            i <= problems@.len(),
            all@ == matching_upto(problems@, *query, i as int),
            match query.name {
                Some(n) => folded_query is Some && folded_query->0@ == lower_of(n@),
                None => folded_query is None,
            },
        decreases problems@.len() - i,
    {
        let p = &problems[i];
        let in_sector = match query.sector {
            Some(s) => p.base.sector_id == s,
            None => true,
        };
        let above = match query.min_grade {
            Some(g) => p.base.grade >= g,
            None => true,
        };
        let below = match query.max_grade {
            Some(g) => p.base.grade <= g,
            None => true,
        };
        let named = match &folded_query {
            Some(fq) => {
                let folded_name = lowercase(p.base.name.as_str());
                name_matches_folded(fq.as_str(), folded_name.as_str())
            },
            None => true,
        };
        if in_sector && above && below && named {
            all.push(i);
        }
        i = i + 1;
    }
    let page: u32 = match query.page {
        Some(p) => if p < 1 { 1 } else { p },
        None => 1,
    };
    let asked: u32 = match query.per_page {
        Some(n) => n,
        None => 20,
    };
    let per_page: u32 = if asked > 100 {
        100
    } else if asked < 1 {
        1
    } else {
        asked
    };
    let before: u64 = (page - 1) as u64;
    let size: u64 = per_page as u64;
    assert(before * size <= 0xffff_ffff * 100) by (nonlinear_arith)
        requires
            before <= 0xffff_ffff,
            size <= 100,
    ;
    let skip: u64 = before * size;
    let len = all.len();
    let start: usize = if skip < len as u64 { skip as usize } else { len };
    let end: usize = if skip + (per_page as u64) < len as u64 { (skip + per_page as u64) as usize } else { len };
    let mut indices: Vec<usize> = Vec::new();
    let mut k: usize = start;
    while k < end
        invariant
            start <= k <= end <= all@.len(),
            indices@ == all@.subrange(start as int, k as int),
        decreases end - k,
    {
        indices.push(all[k]);
        k = k + 1;
    }
    ProblemPage { indices, total: len, page, per_page }
}

} // verus!
