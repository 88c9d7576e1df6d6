//! Which certificate serves which server name: the default entry and the SNI registrations.
use crate::config::TLSConfig;
use vstd::prelude::*;

verus! {

/// The server names registered for SNI, each with the index of its TLS entry, in order.
pub open spec fn sni_names(t: Seq<TLSConfig>) -> Seq<(Seq<char>, int)>
    decreases t.len(),
{
    if t.len() == 0 {
        Seq::empty()
    } else {
        let last = t.len() - 1;
        sni_names(t.drop_last()) + match t.last().hostnames {
            Some(hs) => Seq::new(hs@.len(), |k: int| (hs@[k]@, last)),
            None => Seq::empty(),
        }
    }
}

/// The index of the first entry marked default.
pub open spec fn is_first_default(t: Seq<TLSConfig>, i: int) -> bool {
    0 <= i < t.len() && t[i].default && forall|j: int| 0 <= j < i ==> !(#[trigger] t[j]).default
}

/// The certificate plan: the default entry, and the server names with their entries.
pub struct SniPlan {
    pub default_index: usize,
    pub names: Vec<(String, usize)>,
}

/// The views of SNI registrations.
pub open spec fn names_view(v: Seq<(String, usize)>) -> Seq<(Seq<char>, int)> {
    v.map_values(|p: (String, usize)| (p.0@, p.1 as int))
}

/// The plan for `tls_configs`; `None` when no entry is marked default.
pub fn sni_plan(tls_configs: &Vec<TLSConfig>) -> (r: Option<SniPlan>)
    ensures
        r is None <==> forall|j: int| 0 <= j < tls_configs@.len() ==> !(#[trigger] tls_configs@[j]).default,
        r matches Some(p) ==> is_first_default(tls_configs@, p.default_index as int) && names_view(p.names@)
            == sni_names(tls_configs@),
{
    let mut default_index: Option<usize> = None;
    let mut names: Vec<(String, usize)> = Vec::new();
    for i in 0..tls_configs.len()
        invariant
            names_view(names@) == sni_names(tls_configs@.subrange(0, i as int)),
            default_index is None ==> forall|j: int| 0 <= j < i ==> !(#[trigger] tls_configs@[j]).default,
            default_index matches Some(d) ==> d < i && is_first_default(tls_configs@, d as int),
    {
        assert(tls_configs@.subrange(0, i + 1).drop_last() =~= tls_configs@.subrange(0, i as int));
        if default_index.is_none() && tls_configs[i].default {
            default_index = Some(i);
        }
        let ghost before = names_view(names@);
        match &tls_configs[i].hostnames {
            Some(hs) => {
                for k in 0..hs.len()
                    invariant
                        tls_configs@[i as int].hostnames == Some(*hs),
                        names_view(names@) == before + Seq::new(k as nat, |m: int| (hs@[m]@, i as int)),
                {
                    let ghost mid = names_view(names@);
                    names.push((hs[k].clone(), i));
                    assert(names_view(names@) =~= mid.push((hs@[k as int]@, i as int)));
                    assert(before + Seq::new((k + 1) as nat, |m: int| (hs@[m]@, i as int)) =~= (before
                        + Seq::new(k as nat, |m: int| (hs@[m]@, i as int))).push((hs@[k as int]@, i as int)));
                }
                assert(names_view(names@) =~= sni_names(tls_configs@.subrange(0, i + 1)));
            },
            None => {
                assert(names_view(names@) =~= sni_names(tls_configs@.subrange(0, i + 1)));
            },
        }
    }
    assert(tls_configs@.subrange(0, tls_configs@.len() as int) =~= tls_configs@);
    match default_index {
        Some(d) => Some(SniPlan { default_index: d, names }),
        None => None,
    }
}

} // verus!
