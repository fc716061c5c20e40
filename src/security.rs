//! Row-level security: per-resource policies that deny a query or narrow it
//! with an equality condition on the caller's identity.

use vstd::prelude::*;
use crate::converter::{ConversionError, ConvertedQuery, ConvertedQueryView, QueryCondition, QueryConditionView};
use crate::decimal::{nat_text, u64_text};

verus! {

/// The authenticated caller: an identity and the names of its capabilities.
#[derive(Debug, Clone)]
pub struct CurrentUser {
    id: u64,
    permissions: Vec<String>,
}

/// The abstract content of a `CurrentUser`.
pub struct CurrentUserView {
    pub id: u64,
    pub permissions: Seq<Seq<char>>,
}

impl View for CurrentUser {
    type V = CurrentUserView;

    closed spec fn view(&self) -> CurrentUserView {
        CurrentUserView {
            id: self.id,
            permissions: self.permissions@.map_values(|p: String| p@),
        }
    }
}

impl CurrentUser {
    pub fn new(id: u64, permissions: Vec<String>) -> (r: CurrentUser)
        ensures
            r@.id == id,
            r@.permissions == permissions@.map_values(|p: String| p@),
    {
        CurrentUser { id, permissions }
    }

    pub fn id(&self) -> (r: u64)
        ensures
            r == self@.id,
    {
        self.id
    }

    pub fn permissions(&self) -> (r: &[String])
        ensures
            r@.map_values(|p: String| p@) == self@.permissions,
    {
        self.permissions.as_slice()
    }

    /// Whether `permission` is among the user's permissions.
    pub fn has_permission(&self, permission: &str) -> (r: bool)
        ensures
            r == self@.permissions.contains(permission@),
    {
        let wanted = String::from_str(permission);
        let mut i: usize = 0;
        while i < self.permissions.len()
            invariant
                i <= self@.permissions.len(),
                wanted@ == permission@,
                forall|k: int| 0 <= k < i ==> #[trigger] self@.permissions[k] != permission@,
            decreases self@.permissions.len() - i,
        {
            if self.permissions[i] == wanted {
                assert(self@.permissions[i as int] == permission@);
                return true;
            }
            i = i + 1;
        }
        false
    }
}

/// How a policy decides.
pub enum PolicyRule<F> {
    /// Allow exactly when the predicate holds of the user and the query,
    /// adding no condition.
    Predicate(F),
    /// Always allow, adding the condition `field = user id`.
    CustomField(String),
}

/// The abstract content of a `PolicyRule`.
pub enum PolicyRuleView<F> {
    Predicate(F),
    CustomField(Seq<char>),
}

/// A named access policy for one resource.
pub struct SecurityPolicy<F> {
    name: String,
    rule: PolicyRule<F>,
}

/// The abstract content of a `SecurityPolicy`.
pub struct SecurityPolicyView<F> {
    pub name: Seq<char>,
    pub rule: PolicyRuleView<F>,
}

impl<F> View for SecurityPolicy<F> {
    type V = SecurityPolicyView<F>;

    closed spec fn view(&self) -> SecurityPolicyView<F> {
        SecurityPolicyView {
            name: self.name@,
            rule: match &self.rule {
                PolicyRule::Predicate(p) => PolicyRuleView::Predicate(*p),
                PolicyRule::CustomField(f) => PolicyRuleView::CustomField(f@),
            },
        }
    }
}

impl<F: Fn(&CurrentUser, &ConvertedQuery) -> bool> SecurityPolicy<F> {
    /// The predicate, if any, can be evaluated on every user and query.
    pub closed spec fn callable(&self) -> bool {
        match &self.rule {
            PolicyRule::Predicate(p) => forall|u: &CurrentUser, q: &ConvertedQuery|
                #[trigger] p.requires((u, q)),
            PolicyRule::CustomField(_) => true,
        }
    }

    /// A policy named `name` that allows a query exactly when `policy_fn`
    /// holds of the user and the query.
    pub fn new(name: &str, policy_fn: F) -> (r: SecurityPolicy<F>)
        requires
            forall|u: &CurrentUser, q: &ConvertedQuery| #[trigger] policy_fn.requires((u, q)),
        ensures
            r@.name == name@,
            r@.rule == PolicyRuleView::Predicate(policy_fn),
            r.callable(),
    {
        SecurityPolicy { name: String::from_str(name), rule: PolicyRule::Predicate(policy_fn) }
    }

    /// The outcome of the policy once its predicate answered `allowed`:
    /// success, or `ACCESS_DENIED` naming the policy.
    pub fn verdict(&self, allowed: bool) -> (r: Result<(), ConversionError>)
        ensures
            r is Ok <==> allowed,
            r matches Err(e) ==> e@.code == ACCESS_DENIED@ && e@.message
                == "Access denied by policy: "@ + self@.name,
    {
        if allowed {
            Ok(())
        } else {
            let mut message = String::from_str("Access denied by policy: ");
            message.append(self.name.as_str());
            Err(ConversionError::new(ACCESS_DENIED, message.as_str()))
        }
    }

    /// A policy that always allows and narrows the query to the rows whose
    /// `field_name` equals the user's id; it is named `custom_field_<field>`.
    pub fn custom_field(field_name: &str) -> (r: SecurityPolicy<F>)
        ensures
            r@.name == "custom_field_"@ + field_name@,
            r@.rule == PolicyRuleView::<F>::CustomField(field_name@),
            r.callable(),
    {
        let mut name = String::from_str("custom_field_");
        name.append(field_name);
        SecurityPolicy { name, rule: PolicyRule::CustomField(String::from_str(field_name)) }
    }
}

/// The field of the default policy's condition.
pub const DEFAULT_POLICY_FIELD: &'static str = "user_id";

/// The code of a denied query.
pub const ACCESS_DENIED: &'static str = "ACCESS_DENIED";

/// The position of the first policy registered for `resource` at or after
/// `start`.
pub open spec fn find_policy<F>(
    entries: Seq<(Seq<char>, SecurityPolicyView<F>)>,
    resource: Seq<char>,
    start: int,
) -> Option<int>
    decreases entries.len() - start,
{
    if start < 0 || start >= entries.len() {
        None
    } else if entries[start].0 == resource {
        Some(start)
    } else {
        find_policy(entries, resource, start + 1)
    }
}

/// `q` with `c` appended to its conditions.
pub open spec fn with_condition(q: ConvertedQueryView, c: QueryConditionView) -> ConvertedQueryView {
    ConvertedQueryView { resource: q.resource, conditions: q.conditions.push(c), limit: q.limit }
}

/// The condition `field = id`, the id written in decimal.
pub open spec fn owner_condition(field: Seq<char>, id: u64) -> QueryConditionView {
    QueryConditionView::Eq { field, value: nat_text(id as nat) }
}

/// Applies row-level security to queries, by resource.
pub struct SecurityEnforcer<F> {
    resource_policies: Vec<(String, SecurityPolicy<F>)>,
}

impl<F> View for SecurityEnforcer<F> {
    type V = Seq<(Seq<char>, SecurityPolicyView<F>)>;

    closed spec fn view(&self) -> Seq<(Seq<char>, SecurityPolicyView<F>)> {
        self.resource_policies@.map_values(|e: (String, SecurityPolicy<F>)| (e.0@, e.1@))
    }
}

impl<F: Fn(&CurrentUser, &ConvertedQuery) -> bool> SecurityEnforcer<F> {
    /// One policy per resource, each of which can be evaluated.
    pub closed spec fn wf(&self) -> bool {
        &&& forall|i: int, j: int|
            0 <= i < self@.len() && 0 <= j < self@.len() && i != j ==> #[trigger] self@[i].0
                != #[trigger] self@[j].0
        &&& forall|i: int|
            0 <= i < self.resource_policies@.len() ==> (#[trigger] self.resource_policies@[i]).1.callable()
    }

    /// An enforcer with no policy: every resource gets the default policy.
    pub fn new() -> (r: SecurityEnforcer<F>)
        ensures
            r@ == Seq::<(Seq<char>, SecurityPolicyView<F>)>::empty(),
            r.wf(),
    {
        let r = SecurityEnforcer { resource_policies: Vec::new() };
        assert(r@ =~= Seq::<(Seq<char>, SecurityPolicyView<F>)>::empty());
        r
    }

    /// The number of resources with a registered policy.
    pub fn len(&self) -> (r: usize)
        ensures
            r == self@.len(),
    {
        self.resource_policies.len()
    }

    /// The position of the policy registered for `resource`, if any.
    fn lookup(&self, resource: &String) -> (r: Option<usize>)
        ensures
            r matches Some(i) ==> find_policy(self@, resource@, 0) == Some(i as int) && i
                < self@.len(),
            r is None ==> find_policy(self@, resource@, 0) is None,
    {
        let mut i: usize = 0;
        while i < self.resource_policies.len()
            invariant
                i <= self@.len(),
                find_policy(self@, resource@, 0) == find_policy(self@, resource@, i as int),
            decreases self@.len() - i,
        {
            if self.resource_policies[i].0 == *resource {
                assert(self@[i as int].0 == resource@);
                return Some(i);
            }
            i = i + 1;
        }
        None
    }

    /// Registers `policy` for `resource`, replacing the policy registered
    /// for it before, if any.
    pub fn add_policy_for_resource(&mut self, resource: &str, policy: SecurityPolicy<F>)
        requires
            old(self).wf(),
            policy.callable(),
        ensures
            final(self).wf(),
            find_policy(old(self)@, resource@, 0) matches Some(i) ==> final(self)@ == old(
                self,
            )@.update(i, (resource@, policy@)),
            find_policy(old(self)@, resource@, 0) is None ==> final(self)@ == old(self)@.push(
                (resource@, policy@),
            ),
    {
        let key = String::from_str(resource);
        let ghost pv = policy@;
        match self.lookup(&key) {
            Some(i) => {
                proof {
                    lemma_find_policy_some(old(self)@, resource@, 0, i as int);
                }
                self.resource_policies.set(i, (key, policy));
                assert(self@ =~= old(self)@.update(i as int, (resource@, pv)));
                assert forall|a: int, b: int|
                    0 <= a < self@.len() && 0 <= b < self@.len() && a != b implies #[trigger] self@[a].0
                        != #[trigger] self@[b].0 by {
                    if a != i && b != i {
                        assert(old(self)@[a].0 != old(self)@[b].0);
                    } else if a == i {
                        assert(old(self)@[b].0 != old(self)@[i as int].0);
                    } else {
                        assert(old(self)@[a].0 != old(self)@[i as int].0);
                    }
                }
                assert forall|a: int| 0 <= a < self.resource_policies@.len() implies (
                #[trigger] self.resource_policies@[a]).1.callable() by {
                    if a != i {
                        assert(old(self).resource_policies@[a].1.callable());
                    }
                }
            },
            None => {
                proof {
                    assert forall|k: int| 0 <= k < old(self)@.len() implies old(self)@[k].0
                        != resource@ by {
                        lemma_find_policy_none(old(self)@, resource@, 0, k);
                    }
                }
                self.resource_policies.push((key, policy));
                assert(self@ =~= old(self)@.push((resource@, pv)));
            },
        }
    }

    /// Applies the policy of the query's resource to it.
    ///
    /// Without a registered policy the default applies: the condition
    /// `user_id = <user id>` is appended. A custom-field policy appends
    /// `<field> = <user id>`. A predicate policy adds nothing; when the
    /// predicate does not hold, the query is denied with `ACCESS_DENIED` and
    /// left as it was. Existing conditions are kept, in order, before an
    /// appended one; applying enforcement twice appends the condition twice.
    pub fn enforce(&self, query: &mut ConvertedQuery, user: &CurrentUser) -> (r: Result<
        (),
        ConversionError,
    >)
        requires
            self.wf(),
        ensures
            match find_policy(self@, old(query)@.resource, 0) {
                None => r is Ok && final(query)@ == with_condition(
                    old(query)@,
                    owner_condition(DEFAULT_POLICY_FIELD@, user@.id),
                ),
                Some(i) => match self@[i].1.rule {
                    PolicyRuleView::CustomField(field) => r is Ok && final(query)@
                        == with_condition(old(query)@, owner_condition(field, user@.id)),
                    PolicyRuleView::Predicate(p) => {
                        &&& final(query)@ == old(query)@
                        &&& r is Ok ==> call_ensures(p, (user, &*old(query)), true)
                        &&& r is Err ==> call_ensures(p, (user, &*old(query)), false)
                        &&& (forall|b: bool| call_ensures(p, (user, &*old(query)), b) ==> !b)
                            ==> r is Err
                        &&& r matches Err(e) ==> e@.code == ACCESS_DENIED@ && e@.message
                            == "Access denied by policy: "@ + self@[i].1.name
                    },
                },
            },
    {
        let found = self.lookup(&String::from_str(query.resource()));
        match found {
            None => {
                self.apply_default_policy(query, user);
                Ok(())
            },
            Some(i) => {
                let policy = &self.resource_policies[i].1;
                assert(self.resource_policies@[i as int].1.callable());
                self.apply_custom_policy(query, user, policy)
            },
        }
    }

    /// Appends `user_id = <user id>`.
    fn apply_default_policy(&self, query: &mut ConvertedQuery, user: &CurrentUser)
        ensures
            final(query)@ == with_condition(
                old(query)@,
                owner_condition(DEFAULT_POLICY_FIELD@, user@.id),
            ),
    {
        let condition = QueryCondition::Eq {
            field: String::from_str(DEFAULT_POLICY_FIELD),
            value: u64_text(user.id()),
        };
        query.add_condition(condition);
    }

    /// Applies a registered policy.
    fn apply_custom_policy(
        &self,
        query: &mut ConvertedQuery,
        user: &CurrentUser,
        policy: &SecurityPolicy<F>,
    ) -> (r: Result<(), ConversionError>)
        requires
            policy.callable(),
        ensures
            match policy@.rule {
                PolicyRuleView::CustomField(field) => r is Ok && final(query)@ == with_condition(
                    old(query)@,
                    owner_condition(field, user@.id),
                ),
                PolicyRuleView::Predicate(p) => {
                    &&& final(query)@ == old(query)@
                    &&& r is Ok ==> call_ensures(p, (user, &*old(query)), true)
                    &&& r is Err ==> call_ensures(p, (user, &*old(query)), false)
                    &&& r matches Err(e) ==> e@.code == ACCESS_DENIED@ && e@.message
                        == "Access denied by policy: "@ + policy@.name
                },
            },
    {
        match &policy.rule {
            PolicyRule::Predicate(p) => {
                let current: &ConvertedQuery = &*query;
                let allowed = p(user, current);
                policy.verdict(allowed)
            },
            PolicyRule::CustomField(field) => {
                let condition = QueryCondition::Eq { field: field.clone(), value: u64_text(user.id()) };
                query.add_condition(condition);
                Ok(())
            },
        }
    }
}

proof fn lemma_find_policy_some<F>(
    entries: Seq<(Seq<char>, SecurityPolicyView<F>)>,
    resource: Seq<char>,
    start: int,
    i: int,
)
    requires
        find_policy(entries, resource, start) == Some(i),
    ensures
        0 <= i < entries.len(),
        entries[i].0 == resource,
    decreases entries.len() - start,
{
    if 0 <= start < entries.len() && entries[start].0 != resource {
        lemma_find_policy_some(entries, resource, start + 1, i);
    }
}

proof fn lemma_find_policy_none<F>(
    entries: Seq<(Seq<char>, SecurityPolicyView<F>)>,
    resource: Seq<char>,
    start: int,
    k: int,
)
    requires
        0 <= start <= k < entries.len(),
        find_policy(entries, resource, start) is None,
    ensures
        entries[k].0 != resource,
    decreases k - start,
{
    if start < k {
        lemma_find_policy_none(entries, resource, start + 1, k);
    }
}

impl<F: Fn(&CurrentUser, &ConvertedQuery) -> bool> Default for SecurityEnforcer<F> {
    fn default() -> (r: SecurityEnforcer<F>)
        ensures
            r@ == Seq::<(Seq<char>, SecurityPolicyView<F>)>::empty(),
    {
        SecurityEnforcer::new()
    }
}

} // verus!
