//! The applications of the system, which know something about a domain and
//! about what stands under it.

use crate::table::Table;
use crate::text::{decimal, spec_decimal, spec_split_once, split_once};
use vstd::prelude::*;

verus! {

/// An application that answers for some domains.
///
/// What an application gives is stated by three specification functions, and
/// each of the three executable functions gives just that. A verified
/// implementation states its own three; those written here are the ones of an
/// application that answers for no domain and knows nothing, and they let code
/// that is not verified implement the executable functions alone.
pub trait App {
    /// The domains that the application answers for.
    open spec fn domains(&self) -> Seq<Seq<char>> {
        Seq::empty()
    }

    /// What the application says of itself.
    open spec fn description(&self) -> Seq<char> {
        Seq::empty()
    }

    /// What the application knows of the sub-path `path`, if anything.
    open spec fn info(&self, path: Seq<char>) -> Option<Seq<char>> {
        None
    }

    /// Names the domains to register the application under.
    fn register(&self) -> (r: Vec<String>)
        ensures
            r.deep_view() == self.domains(),
    ;

    /// Describes the application.
    fn general_info(&self) -> (r: String)
        ensures
            r@ == self.description(),
    ;

    /// Looks `path` up in the application.
    fn fetch_info(&self, path: &str) -> (r: Option<String>)
        ensures
            r.deep_view() == self.info(path@),
    ;
}

/// A user of the advertisements site.
#[derive(Debug)]
pub struct ModbayUser {
    pub username: String,
    pub reputation: i32,
}

/// A user, as contracts see one.
pub struct ModbayUserView {
    pub username: Seq<char>,
    pub reputation: int,
}

impl ModbayUserView {
    /// The two lines that show the user.
    pub open spec fn display(self) -> Seq<char> {
        "|\tUsername: "@ + self.username + "\n|\tReputation: "@ + spec_decimal(self.reputation)
    }
}

impl View for ModbayUser {
    type V = ModbayUserView;

    open spec fn view(&self) -> ModbayUserView {
        ModbayUserView { username: self.username@, reputation: self.reputation as int }
    }
}

impl ModbayUser {
    /// Shows the user on two lines.
    pub fn display(&self) -> (r: String)
        ensures
            r@ == self@.display(),
    {
        let mut r = "|\tUsername: ".to_owned();
        r.append(self.username.as_str());
        r.append("\n|\tReputation: ");
        r.append(decimal(self.reputation).as_str());
        r
    }
}

/// An advertisement on the site.
#[derive(Debug)]
pub struct ModbayOrder {
    pub user: ModbayUser,
    pub name: String,
    pub photo_url: String,
}

/// An advertisement, as contracts see one.
pub struct ModbayOrderView {
    pub user: ModbayUserView,
    pub name: Seq<char>,
    pub photo_url: Seq<char>,
}

impl ModbayOrderView {
    /// The lines that show the advertisement and its user.
    pub open spec fn display(self) -> Seq<char> {
        "\n|Order: "@ + self.name + "\n|Image (rendered): "@ + self.photo_url + "\n|User: \n"@
            + self.user.display()
    }
}

impl View for ModbayOrder {
    type V = ModbayOrderView;

    open spec fn view(&self) -> ModbayOrderView {
        ModbayOrderView { user: self.user@, name: self.name@, photo_url: self.photo_url@ }
    }
}

impl ModbayOrder {
    /// Shows the advertisement and its user.
    pub fn display(&self) -> (r: String)
        ensures
            r@ == self@.display(),
    {
        let mut r = "\n|Order: ".to_owned();
        r.append(self.name.as_str());
        r.append("\n|Image (rendered): ");
        r.append(self.photo_url.as_str());
        r.append("\n|User: \n");
        r.append(self.user.display().as_str());
        r
    }
}

/// The advertisements site: an application with its users and advertisements.
#[derive(Debug)]
pub struct ModbayNet {
    user_db: Table<ModbayUser>,
    order_db: Table<ModbayOrder>,
}

/// The site, as contracts see it: users and advertisements by their ids.
pub struct ModbayNetView {
    pub users: Map<Seq<char>, ModbayUserView>,
    pub orders: Map<Seq<char>, ModbayOrderView>,
}

impl ModbayNetView {
    /// The site that `ModbayNet::new` sets up: two users and one advertisement.
    pub open spec fn stock() -> ModbayNetView {
        let coder = ModbayUserView { username: "rust_coder2"@, reputation: 42 };
        let untrusted = ModbayUserView { username: "untrusted_user"@, reputation: -8 };
        let sandals = ModbayOrderView {
            user: untrusted,
            name: "sandals"@,
            photo_url: "https://modbay.net/static/sandals.jpg"@,
        };
        ModbayNetView {
            users: Map::empty().insert("0"@, coder).insert("1"@, untrusted),
            orders: Map::empty().insert("12345"@, sandals),
        }
    }

    /// What the site shows for `path`: the advertisement whose id stands before the
    /// first `.`, where `order` stands after it and the id is known.
    pub open spec fn info(self, path: Seq<char>) -> Option<Seq<char>> {
        match spec_split_once(path, "."@) {
            Some((id, kind)) => {
                if kind == "order"@ && self.orders.contains_key(id) {
                    Some(self.orders[id].display())
                } else {
                    None
                }
            },
            None => None,
        }
    }
}

impl View for ModbayNet {
    type V = ModbayNetView;

    closed spec fn view(&self) -> ModbayNetView {
        ModbayNetView {
            users: self.user_db@.map_values(|user: ModbayUser| user@),
            orders: self.order_db@.map_values(|order: ModbayOrder| order@),
        }
    }
}

impl ModbayNet {
    /// The site with its stock of users and advertisements.
    pub fn new() -> (r: Self)
        ensures
            r@ == ModbayNetView::stock(),
    {
        let mut user_db = Table::new();
        let mut order_db = Table::new();

        user_db.insert(
            "0".to_owned(),
            ModbayUser { username: "rust_coder2".to_owned(), reputation: 42 },
        );
        user_db.insert(
            "1".to_owned(),
            ModbayUser { username: "untrusted_user".to_owned(), reputation: -8 },
        );

        order_db.insert(
            "12345".to_owned(),
            ModbayOrder {
                user: ModbayUser { username: "untrusted_user".to_owned(), reputation: -8 },
                name: "sandals".to_owned(),
                photo_url: "https://modbay.net/static/sandals.jpg".to_owned(),
            },
        );

        let r = ModbayNet { user_db, order_db };
        assert(r@.users =~= ModbayNetView::stock().users);
        assert(r@.orders =~= ModbayNetView::stock().orders);
        r
    }

    /// The advertisement with the id `order_id`, if the site has one.
    pub fn fetch_order(&self, order_id: &str) -> (r: Option<&ModbayOrder>)
        ensures
            match r {
                Some(order) => self@.orders.contains_key(order_id@) && order@
                    == self@.orders[order_id@],
                None => !self@.orders.contains_key(order_id@),
            },
    {
        self.order_db.get(order_id)
    }

    /// The user with the id `user_id`, if the site has one.
    pub fn fetch_user(&self, user_id: &str) -> (r: Option<&ModbayUser>)
        ensures
            match r {
                Some(user) => self@.users.contains_key(user_id@) && user@ == self@.users[user_id@],
                None => !self@.users.contains_key(user_id@),
            },
    {
        self.user_db.get(user_id)
    }
}

impl App for ModbayNet {
    open spec fn domains(&self) -> Seq<Seq<char>> {
        seq!["modbay.net"@]
    }

    open spec fn description(&self) -> Seq<char> {
        "Classified advertisements website"@
    }

    open spec fn info(&self, path: Seq<char>) -> Option<Seq<char>> {
        self@.info(path)
    }

    fn register(&self) -> (r: Vec<String>) {
        let mut r = Vec::new();
        r.push("modbay.net".to_owned());
        r
    }

    fn general_info(&self) -> (r: String) {
        "Classified advertisements website".to_owned()
    }

    fn fetch_info(&self, path: &str) -> (r: Option<String>) {
        match split_once(path, ".") {
            Some((id, kind)) => {
                if kind == "order".to_owned() {
                    match self.fetch_order(id.as_str()) {
                        Some(order) => Some(order.display()),
                        None => None,
                    }
                } else {
                    None
                }
            },
            None => None,
        }
    }
}

/// The index under `domain` in a registry, if there is one.
spec fn entry(registry: Map<Seq<char>, usize>, domain: Seq<char>) -> Option<int> {
    if registry.contains_key(domain) {
        Some(registry[domain] as int)
    } else {
        None
    }
}

/// The application that answers for `domain` among `apps`: the last one that
/// names it among its domains.
pub open spec fn owner<A: App>(apps: Seq<A>, domain: Seq<char>) -> Option<int>
    decreases apps.len(),
{
    if apps.len() == 0 {
        None
    } else if apps.last().domains().contains(domain) {
        Some(apps.len() - 1)
    } else {
        owner(apps.drop_last(), domain)
    }
}

/// The owner of `domain` once one more application has named the domains
/// `named`: that application, if `domain` is among them.
spec fn owner_with<A: App>(
    apps: Seq<A>,
    named: Seq<Seq<char>>,
    domain: Seq<char>,
) -> Option<int> {
    if named.contains(domain) {
        Some(apps.len() as int)
    } else {
        owner(apps, domain)
    }
}

/// The owner of a domain is one of the applications.
pub proof fn lemma_owner_in_range<A: App>(apps: Seq<A>, domain: Seq<char>)
    ensures
        owner(apps, domain) matches Some(i) ==> 0 <= i < apps.len() && apps[i].domains().contains(
            domain,
        ),
    decreases apps.len(),
{
    if apps.len() > 0 && !apps.last().domains().contains(domain) {
        lemma_owner_in_range(apps.drop_last(), domain);
    }
}

/// The applications of the system, each found by the domains it answers for.
pub struct AppRegistry<A: App = ModbayNet> {
    apps: Vec<A>,
    registry: Table<usize>,
}

impl<A: App> AppRegistry<A> {
    #[verifier::type_invariant]
    spec fn well_formed(self) -> bool {
        forall|domain: Seq<char>| #[trigger]
            entry(self.registry@, domain) == owner(self.apps@, domain)
    }

    /// The applications, in the order in which they were registered.
    pub closed spec fn apps(self) -> Seq<A> {
        self.apps@
    }

    /// What the owner of `domain` says of itself.
    pub open spec fn general_info(self, domain: Seq<char>) -> Option<Seq<char>> {
        match owner(self.apps(), domain) {
            Some(i) => Some(self.apps()[i].description()),
            None => None,
        }
    }

    /// What the owner of `domain` knows of `path`.
    pub open spec fn extra_info(self, domain: Seq<char>, path: Seq<char>) -> Option<Seq<char>> {
        match owner(self.apps(), domain) {
            Some(i) => self.apps()[i].info(path),
            None => None,
        }
    }

    /// Registers each of `apps` under the domains it names; where two name the
    /// same domain, the later one has it.
    pub fn with_apps(apps: Vec<A>) -> (r: Self)
        ensures
            r.apps() == apps@,
    {
        let mut registry: Table<usize> = Table::new();
        let mut i: usize = 0;
        while i < apps.len()
            invariant
                i <= apps.len(),
                forall|domain: Seq<char>| #[trigger]
                    entry(registry@, domain) == owner(apps@.take(i as int), domain),
            decreases apps.len() - i,
        {
            let domains = apps[i].register();
            let ghost named = domains.deep_view();
            let mut j: usize = 0;
            while j < domains.len()
                invariant
                    i < apps.len(),
                    j <= domains.len(),
                    named == domains.deep_view(),
                    named == apps@[i as int].domains(),
                    forall|domain: Seq<char>| #[trigger]
                        entry(registry@, domain) == owner_with(
                            apps@.take(i as int),
                            named.take(j as int),
                            domain,
                        ),
                decreases domains.len() - j,
            {
                let ghost before = registry@;
                registry.insert(domains[j].clone(), i);
                proof {
                    assert(named.take(j + 1) =~= named.take(j as int).push(named[j as int]));
                    assert forall|domain: Seq<char>| #[trigger]
                        entry(registry@, domain) == owner_with(
                            apps@.take(i as int),
                            named.take(j + 1),
                            domain,
                        ) by {
                        assert(entry(before, domain) == owner_with(
                            apps@.take(i as int),
                            named.take(j as int),
                            domain,
                        ));
                        vstd::seq_lib::lemma_seq_contains_after_push(
                            named.take(j as int),
                            named[j as int],
                            domain,
                        );
                    }
                }
                j += 1;
            }
            proof {
                assert(named.take(j as int) =~= named);
                assert(apps@.take(i + 1).drop_last() =~= apps@.take(i as int));
            }
            i += 1;
        }
        assert(apps@.take(i as int) =~= apps@);
        AppRegistry { apps, registry }
    }

    /// What the application registered under `domain` says of itself.
    pub fn get_general_info(&self, domain: &str) -> (r: Option<String>)
        ensures
            r.deep_view() == self.general_info(domain@),
    {
        proof {
            use_type_invariant(self);
            lemma_owner_in_range(self.apps@, domain@);
            assert(entry(self.registry@, domain@) == owner(self.apps@, domain@));
        }
        match self.registry.get(domain) {
            Some(i) => Some(self.apps[*i].general_info()),
            None => None,
        }
    }

    /// What the application registered under `domain` knows of `path`.
    pub fn get_extra_info(&self, domain: &str, path: &str) -> (r: Option<String>)
        ensures
            r.deep_view() == self.extra_info(domain@, path@),
    {
        proof {
            use_type_invariant(self);
            lemma_owner_in_range(self.apps@, domain@);
            assert(entry(self.registry@, domain@) == owner(self.apps@, domain@));
        }
        match self.registry.get(domain) {
            Some(i) => self.apps[*i].fetch_info(path),
            None => None,
        }
    }
}

impl AppRegistry<ModbayNet> {
    /// The registry of this system: the advertisements site alone, with its
    /// stock, under its one domain.
    pub fn new() -> (r: Self)
        ensures
            r.apps().len() == 1,
            r.apps()[0]@ == ModbayNetView::stock(),
            forall|domain: Seq<char>| #[trigger]
                r.general_info(domain) == if domain == "modbay.net"@ {
                    Some("Classified advertisements website"@)
                } else {
                    None
                },
            forall|domain: Seq<char>, path: Seq<char>| #[trigger]
                r.extra_info(domain, path) == if domain == "modbay.net"@ {
                    ModbayNetView::stock().info(path)
                } else {
                    None
                },
    {
        let mut apps: Vec<ModbayNet> = Vec::new();
        apps.push(ModbayNet::new());
        let r = AppRegistry::with_apps(apps);
        proof {
            let named = r.apps()[0].domains();
            assert(named[0] == "modbay.net"@);
            assert forall|domain: Seq<char>|
                owner(r.apps(), domain) == if domain == "modbay.net"@ {
                    Some(0int)
                } else {
                    None
                } by {
                assert(owner(r.apps().drop_last(), domain) is None);
            }
        }
        r
    }
}

} // verus!
