//! The parsing state machine: a fold over the file's lines that groups
//! key/value lines under the nearest preceding profile header and commits
//! every complete draft into the profile map.

use vstd::prelude::*;
use crate::draft::{
    draft_complete, empty_draft, named_draft, record_of, AwsProfileCredential, DraftView,
};
use crate::line::{
    contains_seq, extract_value_from, is_aws_access_key, is_aws_secret_key, is_aws_token,
    is_comment_or_empty, is_profile, get_profile_name_from, lower_of, spec_extract_value,
    spec_is_comment_or_empty, spec_is_profile, spec_profile_name, to_ascii_lower,
};
use crate::profile_map::ProfileMap;
use crate::record::RecordView;

verus! {

/// The typed failures of a parse.
#[derive(Debug, PartialEq, Eq, Structural)]
pub enum ParseError {
    /// The path could not be found when the file was looked up.
    PathNotFound,
    /// The path names something other than a regular file.
    NotAFile,
    /// The line source failed while producing the line with this index.
    IoReadError { line: usize },
    /// The line with this index looked like a profile header but carried no
    /// usable name.
    MalformedHeader { line: usize },
    /// The file parsed but no profile met the completeness invariant.
    NoCredentialsFound,
}

/// The state of the fold: the draft being filled and the map built so far.
#[verifier::ext_equal]
pub ghost struct StateView {
    pub draft: DraftView,
    pub map: Map<Seq<char>, RecordView>,
}

/// The state before any line is read.
pub open spec fn initial_state() -> StateView {
    StateView { draft: empty_draft(), map: Map::empty() }
}

/// Commits a draft: a complete draft's record is put under its name,
/// replacing any prior record; an incomplete draft leaves the map unchanged.
pub open spec fn commit_to(d: DraftView, m: Map<Seq<char>, RecordView>) -> Map<
    Seq<char>,
    RecordView,
> {
    if draft_complete(d) {
        match d.profile_name {
            Some(n) => m.insert(n, record_of(d)),
            None => m,
        }
    } else {
        m
    }
}

/// One key/value line merged into a draft: the first recognized field name
/// whose slot is still empty receives the value extracted from the
/// original-case line; matching is done on the lowered copy.
pub open spec fn assign_line(d: DraftView, line: Seq<char>) -> DraftView {
    let low = lower_of(line);
    if contains_seq(low, "aws_access_key_id"@) && d.access_key is None {
        DraftView { access_key: spec_extract_value(line), ..d }
    } else if contains_seq(low, "aws_secret_access_key"@) && d.secret_key is None {
        DraftView { secret_key: spec_extract_value(line), ..d }
    } else if (contains_seq(low, "aws_session_token"@) || contains_seq(
        low,
        "aws_security_token"@,
    )) && d.token is None {
        DraftView { token: spec_extract_value(line), ..d }
    } else {
        d
    }
}

/// One line fed to the state machine.  `None` stands for the one fatal
/// classification: a line that passes the header test but yields no name.
pub open spec fn feed_line(st: StateView, line: Seq<char>) -> Option<StateView> {
    if spec_is_comment_or_empty(line) {
        Some(st)
    } else if spec_is_profile(line) {
        match spec_profile_name(line) {
            Some(n) => Some(
                StateView { draft: named_draft(n), map: commit_to(st.draft, st.map) },
            ),
            None => None,
        }
    } else {
        Some(StateView { draft: assign_line(st.draft, line), map: st.map })
    }
}

/// All lines fed in order; an error carries the index of the offending line.
pub open spec fn feed_lines(st: StateView, lines: Seq<Seq<char>>) -> Result<StateView, int>
    decreases lines.len(),
{
    if lines.len() == 0 {
        Ok(st)
    } else {
        match feed_lines(st, lines.drop_last()) {
            Err(i) => Err(i),
            Ok(st2) => match feed_line(st2, lines.last()) {
                Some(st3) => Ok(st3),
                None => Err(lines.len() - 1),
            },
        }
    }
}

/// Merges one line into the draft: the first recognized key whose field is
/// still unset receives the value taken from the original-case line.
pub fn try_assign_aws_profile_credential_from(
    line: &str,
    aws_profile_credential: AwsProfileCredential,
) -> (r: AwsProfileCredential)
    ensures
        r@ == assign_line(aws_profile_credential@, line@),
{
    let mut cred = aws_profile_credential;
    let lower_case_line = to_ascii_lower(line);
    if is_aws_access_key(lower_case_line.as_str()) && cred.access_key.is_none() {
        cred.access_key = extract_value_from(line);
    } else if is_aws_secret_key(lower_case_line.as_str()) && cred.secret_key.is_none() {
        cred.secret_key = extract_value_from(line);
    } else if is_aws_token(lower_case_line.as_str()) && cred.token.is_none() {
        cred.token = extract_value_from(line);
    }
    cred
}

/// Commits the draft into the map when it is complete; an incomplete draft
/// is dropped without error.
pub fn try_insert_profile_credential_to(
    profile_credentials_map: ProfileMap,
    aws_profile_credential: AwsProfileCredential,
) -> (r: ProfileMap)
    ensures
        r@ == commit_to(aws_profile_credential@, profile_credentials_map@),
{
    let AwsProfileCredential { profile_name, access_key, secret_key, token } =
        aws_profile_credential;
    let keys_only = AwsProfileCredential { profile_name: None, access_key, secret_key, token };
    match (profile_name, keys_only.into_aws_credential()) {
        (Some(name), Some(record)) => {
            if name.as_str().is_empty() {
                profile_credentials_map
            } else {
                profile_credentials_map.insert(name, record)
            }
        },
        _ => profile_credentials_map,
    }
}

/// Folds every line into the state machine and commits the final draft.
pub fn create_profile_credentials_map_from(lines: &Vec<String>) -> (r: Result<
    ProfileMap,
    ParseError,
>)
    ensures
        match r {
            Ok(m) => {
                &&& feed_lines(initial_state(), lines.deep_view()) matches Ok(st)
                &&& m@ == commit_to(st.draft, st.map)
            },
            Err(e) => {
                &&& feed_lines(initial_state(), lines.deep_view()) matches Err(i)
                &&& e matches ParseError::MalformedHeader { line: l }
                &&& l == i
            },
        },
{
    let ghost lseq = lines.deep_view();
    let mut profile_credentials_map = ProfileMap::new();
    let mut aws_profile_credential = AwsProfileCredential::new();
    let n = lines.len();
    let mut idx: usize = 0;
    while idx < n
        invariant
            0 <= idx <= n,
            n == lines@.len(),
            lseq == lines.deep_view(),
            lseq.len() == n,
            feed_lines(initial_state(), lseq.take(idx as int)) == Ok::<StateView, int>(
                StateView { draft: aws_profile_credential@, map: profile_credentials_map@ },
            ),
        decreases n - idx,
    {
        let line = &lines[idx];
        proof {
            assert(lseq[idx as int] == line@);
        }
        let ghost st_pre = StateView {
            draft: aws_profile_credential@,
            map: profile_credentials_map@,
        };
        if is_comment_or_empty(line.as_str()) {
        } else if is_profile(line.as_str()) {
            match get_profile_name_from(line.as_str()) {
                None => {
                    proof {
                        assert(feed_line(st_pre, lseq[idx as int]) is None);
                        assert(lseq.take(idx + 1).drop_last() =~= lseq.take(idx as int));
                        assert(lseq.take(idx + 1).last() == lseq[idx as int]);
                        assert(feed_lines(initial_state(), lseq.take(idx + 1)) == Err::<
                            StateView,
                            int,
                        >(idx as int));
                        lemma_feed_lines_err_persists(initial_state(), lseq, idx + 1, idx as int);
                    }
                    return Err(ParseError::MalformedHeader { line: idx });
                },
                Some(name) => {
                    profile_credentials_map = try_insert_profile_credential_to(
                        profile_credentials_map,
                        aws_profile_credential,
                    );
                    aws_profile_credential = AwsProfileCredential::new_with_profile_name(name);
                },
            }
        } else {
            aws_profile_credential = try_assign_aws_profile_credential_from(
                line.as_str(),
                aws_profile_credential,
            );
        }
        proof {
            assert(lseq.take(idx + 1).drop_last() =~= lseq.take(idx as int));
            assert(lseq.take(idx + 1).last() == lseq[idx as int]);
            assert(feed_line(st_pre, lseq[idx as int]) == Some(
                StateView { draft: aws_profile_credential@, map: profile_credentials_map@ },
            ));
        }
        idx = idx + 1;
    }
    proof {
        assert(lseq.take(n as int) =~= lseq);
    }
    profile_credentials_map = try_insert_profile_credential_to(
        profile_credentials_map,
        aws_profile_credential,
    );
    Ok(profile_credentials_map)
}

/// Once the fold has failed on a prefix, feeding more lines cannot recover.
proof fn lemma_feed_lines_err_persists(st: StateView, lines: Seq<Seq<char>>, k: int, i: int)
    requires
        0 <= k <= lines.len(),
        feed_lines(st, lines.take(k)) == Err::<StateView, int>(i),
    ensures
        feed_lines(st, lines) == Err::<StateView, int>(i),
    decreases lines.len() - k,
{
    if k < lines.len() {
        assert(lines.take(k + 1).drop_last() =~= lines.take(k));
        lemma_feed_lines_err_persists(st, lines, k + 1, i);
    } else {
        assert(lines.take(k) =~= lines);
    }
}

/// Parses a whole credentials file, given as its sequence of lines.  An
/// empty result is never returned successfully.
pub fn parse_credentials_file(lines: &Vec<String>) -> (r: Result<ProfileMap, ParseError>)
    ensures
        match r {
            Ok(m) => {
                &&& feed_lines(initial_state(), lines.deep_view()) matches Ok(st)
                &&& m@ == commit_to(st.draft, st.map)
                &&& m@.len() > 0
            },
            Err(e) => match e {
                ParseError::MalformedHeader { line: l } => {
                    &&& feed_lines(initial_state(), lines.deep_view()) matches Err(i)
                    &&& l == i
                },
                ParseError::NoCredentialsFound => {
                    &&& feed_lines(initial_state(), lines.deep_view()) matches Ok(st)
                    &&& commit_to(st.draft, st.map).len() == 0
                },
                _ => false,
            },
        },
{
    match create_profile_credentials_map_from(lines) {
        Ok(m) => {
            if m.is_empty() {
                Err(ParseError::NoCredentialsFound)
            } else {
                Ok(m)
            }
        },
        Err(e) => Err(e),
    }
}

/// The path-validation decision, over the two facts a file lookup yields:
/// whether the path was found, and whether it names a regular file.
pub fn validate_path_kind(found: bool, is_file: bool) -> (r: Result<(), ParseError>)
    ensures
        match r {
            Ok(_) => found && is_file,
            Err(e) => match e {
                ParseError::PathNotFound => !found,
                ParseError::NotAFile => found && !is_file,
                _ => false,
            },
        },
{
    if !found {
        Err(ParseError::PathNotFound)
    } else if !is_file {
        Err(ParseError::NotAFile)
    } else {
        Ok(())
    }
}

} // verus!
