//! Users, the current user, and their flags.

use vstd::prelude::*;
use crate::id::UserId;
use crate::util::opt_string_view;
use crate::util::clone_opt_string;

verus! {

/// Flags set on a user account, as a raw bitmask.
#[derive(Clone, Copy, Debug, PartialEq, Eq, Structural)]
pub struct UserFlags {
    pub bits: u64,
}

/// The premium subscription level of a user account.
#[derive(Clone, Copy, Debug, PartialEq, Eq, Structural)]
pub enum PremiumType {
    NoSubscription,
    NitroClassic,
    Nitro,
}

/// A user account, as supplied by the model layer.
pub struct User {
    pub avatar: Option<String>,
    pub bot: bool,
    /// Discriminator used to differentiate people with the same username.
    pub discriminator: String,
    pub email: Option<String>,
    pub flags: Option<UserFlags>,
    pub id: UserId,
    pub locale: Option<String>,
    pub mfa_enabled: Option<bool>,
    pub name: String,
    pub premium_type: Option<PremiumType>,
    pub public_flags: Option<UserFlags>,
    pub system: Option<bool>,
    pub verified: Option<bool>,
}

/// The mathematical value of a [`User`].
#[verifier::ext_equal]
pub struct UserView {
    pub avatar: Option<Seq<char>>,
    pub bot: bool,
    pub discriminator: Seq<char>,
    pub email: Option<Seq<char>>,
    pub flags: Option<UserFlags>,
    pub id: u64,
    pub locale: Option<Seq<char>>,
    pub mfa_enabled: Option<bool>,
    pub name: Seq<char>,
    pub premium_type: Option<PremiumType>,
    pub public_flags: Option<UserFlags>,
    pub system: Option<bool>,
    pub verified: Option<bool>,
}

impl View for User {
    type V = UserView;

    open spec fn view(&self) -> UserView {
        UserView {
            avatar: opt_string_view(self.avatar),
            bot: self.bot,
            discriminator: self.discriminator@,
            email: opt_string_view(self.email),
            flags: self.flags,
            id: self.id@,
            locale: opt_string_view(self.locale),
            mfa_enabled: self.mfa_enabled,
            name: self.name@,
            premium_type: self.premium_type,
            public_flags: self.public_flags,
            system: self.system,
            verified: self.verified,
        }
    }
}

impl Clone for User {
    fn clone(&self) -> (r: Self)
        ensures
            r@ == self@,
    {
        User {
            avatar: clone_opt_string(&self.avatar),
            bot: self.bot,
            discriminator: self.discriminator.clone(),
            email: clone_opt_string(&self.email),
            flags: self.flags,
            id: self.id,
            locale: clone_opt_string(&self.locale),
            mfa_enabled: self.mfa_enabled,
            name: self.name.clone(),
            premium_type: self.premium_type,
            public_flags: self.public_flags,
            system: self.system,
            verified: self.verified,
        }
    }
}

/// The authenticated account that the cache belongs to.
pub struct CurrentUser {
    pub avatar: Option<String>,
    pub bot: bool,
    pub discriminator: String,
    pub email: Option<String>,
    pub flags: Option<UserFlags>,
    pub id: UserId,
    pub locale: Option<String>,
    pub mfa_enabled: bool,
    pub name: String,
    pub premium_type: Option<PremiumType>,
    pub public_flags: Option<UserFlags>,
    pub verified: Option<bool>,
}

/// The mathematical value of a [`CurrentUser`].
#[verifier::ext_equal]
pub struct CurrentUserView {
    pub avatar: Option<Seq<char>>,
    pub bot: bool,
    pub discriminator: Seq<char>,
    pub email: Option<Seq<char>>,
    pub flags: Option<UserFlags>,
    pub id: u64,
    pub locale: Option<Seq<char>>,
    pub mfa_enabled: bool,
    pub name: Seq<char>,
    pub premium_type: Option<PremiumType>,
    pub public_flags: Option<UserFlags>,
    pub verified: Option<bool>,
}

impl View for CurrentUser {
    type V = CurrentUserView;

    open spec fn view(&self) -> CurrentUserView {
        CurrentUserView {
            avatar: opt_string_view(self.avatar),
            bot: self.bot,
            discriminator: self.discriminator@,
            email: opt_string_view(self.email),
            flags: self.flags,
            id: self.id@,
            locale: opt_string_view(self.locale),
            mfa_enabled: self.mfa_enabled,
            name: self.name@,
            premium_type: self.premium_type,
            public_flags: self.public_flags,
            verified: self.verified,
        }
    }
}

impl Clone for CurrentUser {
    fn clone(&self) -> (r: Self)
        ensures
            r@ == self@,
    {
        CurrentUser {
            avatar: clone_opt_string(&self.avatar),
            bot: self.bot,
            discriminator: self.discriminator.clone(),
            email: clone_opt_string(&self.email),
            flags: self.flags,
            id: self.id,
            locale: clone_opt_string(&self.locale),
            mfa_enabled: self.mfa_enabled,
            name: self.name.clone(),
            premium_type: self.premium_type,
            public_flags: self.public_flags,
            verified: self.verified,
        }
    }
}

} // verus!
