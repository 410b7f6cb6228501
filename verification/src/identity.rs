use vstd::prelude::*;
use vstd::string::*;

verus! {

/// What stands after the last '/' of a path; the whole string where no
/// '/' occurs; empty where the string ends in '/'.
pub open spec fn spec_last_slash_segment(s: Seq<char>) -> Seq<char>
    decreases s.len(),
{
    if s.len() == 0 {
        s
    } else if s.last() == '/' {
        Seq::empty()
    } else {
        spec_last_slash_segment(s.drop_last()).push(s.last())
    }
}

/// What stands before the first ':' of a process name; the whole string
/// where no ':' occurs.
pub open spec fn spec_before_colon(s: Seq<char>) -> Seq<char>
    decreases s.len(),
{
    if s.len() == 0 {
        s
    } else if s[0] == ':' {
        Seq::empty()
    } else {
        seq![s[0]] + spec_before_colon(s.drop_first())
    }
}

proof fn lemma_last_segment_after_slash(s: Seq<char>, j: int)
    requires
        0 <= j < s.len(),
        s[j] == '/',
        forall|k: int| j < k < s.len() ==> s[k] != '/',
    ensures
        spec_last_slash_segment(s) == s.subrange(j + 1, s.len() as int),
    decreases s.len(),
{
    if j == s.len() - 1 {
        assert(s.subrange(j + 1, s.len() as int) =~= Seq::<char>::empty());
    } else {
        assert(s.last() != '/');
        lemma_last_segment_after_slash(s.drop_last(), j);
        assert(s.subrange(j + 1, s.len() as int) =~= s.drop_last().subrange(
            j + 1,
            s.len() - 1,
        ).push(s.last()));
    }
}

proof fn lemma_last_segment_no_slash(s: Seq<char>)
    requires
        forall|k: int| 0 <= k < s.len() ==> s[k] != '/',
    ensures
        spec_last_slash_segment(s) == s,
    decreases s.len(),
{
    if s.len() > 0 {
        lemma_last_segment_no_slash(s.drop_last());
        assert(s =~= s.drop_last().push(s.last()));
    }
}

proof fn lemma_before_colon_at(s: Seq<char>, j: int)
    requires
        0 <= j < s.len(),
        s[j] == ':',
        forall|k: int| 0 <= k < j ==> s[k] != ':',
    ensures
        spec_before_colon(s) == s.subrange(0, j),
    decreases j,
{
    if j == 0 {
        assert(s.subrange(0, 0) =~= Seq::<char>::empty());
    } else {
        assert(s[0] != ':');
        assert(s.drop_first()[j - 1] == s[j]);
        assert forall|k: int| 0 <= k < j - 1 implies s.drop_first()[k] != ':' by {
            assert(s.drop_first()[k] == s[k + 1]);
        }
        lemma_before_colon_at(s.drop_first(), j - 1);
        assert(s.subrange(0, j) =~= seq![s[0]] + s.drop_first().subrange(0, j - 1));
    }
}

proof fn lemma_before_colon_none(s: Seq<char>)
    requires
        forall|k: int| 0 <= k < s.len() ==> s[k] != ':',
    ensures
        spec_before_colon(s) == s,
    decreases s.len(),
{
    if s.len() > 0 {
        assert forall|k: int| 0 <= k < s.drop_first().len() implies s.drop_first()[k] != ':' by {
            assert(s.drop_first()[k] == s[k + 1]);
        }
        lemma_before_colon_none(s.drop_first());
        assert(s =~= seq![s[0]] + s.drop_first());
    }
}

/// The package name a data directory path ends in: the last path segment,
/// where it is non-empty.
pub fn package_from_app_data_dir(app_data_dir: &str) -> (r: Option<String>)
    ensures
        match r {
            Some(p) => p@ == spec_last_slash_segment(app_data_dir@) && p@.len() > 0,
            None => spec_last_slash_segment(app_data_dir@).len() == 0,
        },
{
    let ghost s = app_data_dir@;
    let n: usize = app_data_dir.unicode_len();
    let mut last_slash: Option<usize> = None;
    let mut i: usize = 0;
    while i < n
        invariant
            n == s.len(),
            0 <= i <= n,
            s == app_data_dir@,
            match last_slash {
                Some(j) => j < i && s[j as int] == '/' && (forall|k: int|
                    j < k < i ==> s[k] != '/'),
                None => forall|k: int| 0 <= k < i ==> s[k] != '/',
            },
        decreases n - i,
    {
        let c = app_data_dir.get_char(i);
        if c == '/' {
            last_slash = Some(i);
        }
        i = i + 1;
    }
    match last_slash {
        Some(j) => {
            proof {
                lemma_last_segment_after_slash(s, j as int);
            }
            if j + 1 < n {
                let seg = app_data_dir.substring_char(j + 1, n);
                Some(seg.to_owned())
            } else {
                None
            }
        },
        None => {
            proof {
                lemma_last_segment_no_slash(s);
            }
            if n > 0 {
                Some(app_data_dir.to_owned())
            } else {
                None
            }
        },
    }
}

/// The package name a process nice-name carries: everything before the
/// first ':' (processes like `pkg:service`), where it is non-empty.
pub fn package_from_nice_name(nice_name: &str) -> (r: Option<String>)
    ensures
        match r {
            Some(p) => p@ == spec_before_colon(nice_name@) && p@.len() > 0,
            None => spec_before_colon(nice_name@).len() == 0,
        },
{
    let ghost s = nice_name@;
    let n: usize = nice_name.unicode_len();
    let mut i: usize = 0;
    while i < n
        invariant
            n == s.len(),
            0 <= i <= n,
            s == nice_name@,
            forall|k: int| 0 <= k < i ==> s[k] != ':',
        decreases n - i,
    {
        let c = nice_name.get_char(i);
        if c == ':' {
            proof {
                lemma_before_colon_at(s, i as int);
            }
            if i > 0 {
                let prefix = nice_name.substring_char(0, i);
                return Some(prefix.to_owned());
            } else {
                return None;
            }
        }
        i = i + 1;
    }
    proof {
        lemma_before_colon_none(s);
    }
    if n > 0 {
        Some(nice_name.to_owned())
    } else {
        None
    }
}

/// Resolves a process's package name as specialization does: the data
/// directory's last segment where that is usable, else the nice-name up
/// to its ':', else nothing, in which case specialization aborts for
/// this process.
pub fn extract_package_name(app_data_dir: Option<&str>, nice_name: Option<&str>) -> (r: Option<
    String,
>)
    ensures
        ({
            let from_dir = match app_data_dir {
                Some(d) => spec_last_slash_segment(d@),
                None => Seq::<char>::empty(),
            };
            let from_name = match nice_name {
                Some(nn) => spec_before_colon(nn@),
                None => Seq::<char>::empty(),
            };
            if from_dir.len() > 0 {
                r matches Some(p) && p@ == from_dir
            } else if from_name.len() > 0 {
                r matches Some(p) && p@ == from_name
            } else {
                r is None
            }
        }),
{
    if let Some(d) = app_data_dir {
        if let Some(p) = package_from_app_data_dir(d) {
            return Some(p);
        }
    }
    if let Some(nn) = nice_name {
        if let Some(p) = package_from_nice_name(nn) {
            return Some(p);
        }
    }
    None
}

} // verus!
